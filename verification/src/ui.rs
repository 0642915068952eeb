//! What the menu-bar icon, its menus, the Settings window and the setup
//! assistant show, and what their clicks decide. Drawing them is AppKit's
//! job, outside this module.

use vstd::prelude::*;

use crate::chars::{chars_of, str_eq, string_of};
use crate::config::Config;
use crate::daemon::{Controls, Status};
use crate::models::Finished;
use crate::stt::{all_models, default_model, model_label, ModelId};

verus! {

/// `s` ends with `suffix`, and `s` without it.
fn strip_suffix(s: &Vec<char>, suffix: &str) -> (r: Option<Vec<char>>)
    ensures
        r is Some <==> suffix@.is_suffix_of(s@),
        r matches Some(k) ==> k@ == s@.subrange(0, s@.len() - suffix@.len()),
{
    let suf = chars_of(suffix);
    if suf.len() > s.len() {
        return None;
    }
    let start = s.len() - suf.len();
    let mut i: usize = 0;
    while i < suf.len()
        invariant
            suf@ == suffix@,
            start == s.len() - suf.len(),
            i <= suf.len(),
            forall|j: int| 0 <= j < i ==> s@[start + j] == suf@[j],
        decreases suf.len() - i,
    {
        if s[start + i] != suf[i] {
            assert(s@.subrange(start as int, s.len() as int)[i as int] != suffix@[i as int]);
            return None;
        }
        i = i + 1;
    }
    assert(suffix@ =~= s@.subrange(start as int, s.len() as int));
    let mut k: Vec<char> = Vec::new();
    let mut j: usize = 0;
    while j < start
        invariant
            start <= s.len(),
            j <= start,
            k@ == s@.subrange(0, j as int),
        decreases start - j,
    {
        k.push(s[j]);
        j = j + 1;
        assert(k@ =~= s@.subrange(0, j as int));
    }
    Some(k)
}

/// The name people know a modifier by ("Opt" is the Option key).
pub open spec fn modifier_name(key: Seq<char>) -> Seq<char> {
    if key == "Opt"@ {
        "Option"@
    } else if key == "Cmd"@ {
        "Command"@
    } else if key == "Ctrl"@ {
        "Control"@
    } else {
        key
    }
}

/// `s` with each `+` written as ` + `.
pub open spec fn spaced_plus(s: Seq<char>) -> Seq<char>
    decreases s.len(),
{
    if s.len() == 0 {
        Seq::empty()
    } else {
        spaced_plus(s.drop_last()) + if s.last() == '+' {
            " + "@
        } else {
            seq![s.last()]
        }
    }
}

/// The configured hotkey as people know it, e.g. "OptRight" -> "Right Option".
pub open spec fn hotkey_name_of(h: Seq<char>) -> Seq<char> {
    if "Right"@.is_suffix_of(h) {
        "Right "@ + modifier_name(h.subrange(0, h.len() - 5))
    } else if "Left"@.is_suffix_of(h) {
        "Left "@ + modifier_name(h.subrange(0, h.len() - 4))
    } else {
        spaced_plus(h)
    }
}

fn modifier_name_exec(key: &str) -> (r: &str)
    ensures
        r@ == modifier_name(key@),
{
    if str_eq(key, "Opt") {
        "Option"
    } else if str_eq(key, "Cmd") {
        "Command"
    } else if str_eq(key, "Ctrl") {
        "Control"
    } else {
        key
    }
}

/// The configured hotkey as people know it, e.g. "OptRight" -> "Right Option".
pub fn hotkey_name(hotkey: &str) -> (r: String)
    ensures
        r@ == hotkey_name_of(hotkey@),
{
    proof {
        reveal_strlit("Right");
        reveal_strlit("Left");
        reveal_strlit(" + ");
    }
    let h = chars_of(hotkey);
    if let Some(key) = strip_suffix(&h, "Right") {
        let key = string_of(&key);
        let mut r = String::from_str("Right ");
        r.append(modifier_name_exec(key.as_str()));
        return r;
    }
    if let Some(key) = strip_suffix(&h, "Left") {
        let key = string_of(&key);
        let mut r = String::from_str("Left ");
        r.append(modifier_name_exec(key.as_str()));
        return r;
    }
    let mut out: Vec<char> = Vec::new();
    let mut i: usize = 0;
    while i < h.len()
        invariant
            h@ == hotkey@,
            i <= h.len(),
            out@ == spaced_plus(h@.take(i as int)),
        decreases h.len() - i,
    {
        assert(h@.take(i + 1).drop_last() =~= h@.take(i as int));
        proof {
            reveal_strlit(" + ");
        }
        let c = h[i];
        if c == '+' {
            out.push(' ');
            out.push('+');
            out.push(' ');
        } else {
            out.push(c);
        }
        i = i + 1;
        assert(out@ =~= spaced_plus(h@.take(i as int)));
    }
    assert(h@.take(h.len() as int) =~= h@);
    string_of(&out)
}

/// What the icon and the status line show.
#[derive(Debug, Clone, Copy, PartialEq, Eq, Structural)]
pub enum UiState {
    Loading,
    Ready(Status),
    NeedsAccessibility,
    NeedsModel,
    Failed,
}

/// The SF Symbol of the menu-bar icon.
pub open spec fn status_symbol(state: UiState, paused: bool, permitted: bool) -> Seq<char> {
    if !permitted && state is Ready {
        "exclamationmark.triangle"@
    } else {
        match state {
            UiState::Loading => "hourglass"@,
            UiState::NeedsAccessibility => "exclamationmark.triangle"@,
            UiState::NeedsModel => "arrow.down.circle"@,
            UiState::Failed => "exclamationmark.triangle"@,
            UiState::Ready(s) => if paused {
                "mic.slash"@
            } else {
                match s {
                    Status::Idle => "mic"@,
                    Status::Recording => "mic.fill"@,
                    Status::Transcribing => "waveform"@,
                }
            },
        }
    }
}

/// The status line of the menu, for the hotkey's name `hotkey` and the
/// reason `error` the service stopped.
pub open spec fn status_text(
    state: UiState,
    paused: bool,
    permitted: bool,
    hotkey: Seq<char>,
    error: Seq<char>,
) -> Seq<char> {
    if !permitted && state is Ready {
        "A permission is missing: choose Fix Permissions…"@
    } else {
        match state {
            UiState::Loading => "Loading model…"@,
            UiState::NeedsAccessibility =>
                "Waiting for Accessibility permission (System Settings › Privacy & Security)"@,
            UiState::NeedsModel => "No speech model yet: download one in Settings"@,
            UiState::Failed => "Stopped: "@ + error,
            UiState::Ready(s) => if paused {
                "Paused"@
            } else {
                match s {
                    Status::Idle => "Ready: hold "@ + hotkey + " to dictate"@,
                    Status::Recording => "Listening…"@,
                    Status::Transcribing => "Transcribing…"@,
                }
            },
        }
    }
}

/// What the menu-bar icon shows.
pub struct StatusView {
    /// SF Symbol of the icon.
    pub symbol: &'static str,
    /// The status line, also the icon's accessibility description.
    pub text: String,
    /// The icon's tooltip.
    pub tooltip: String,
    /// Whether the "Fix Permissions…" item is shown.
    pub fix_permissions: bool,
}

/// The icon and status line for `state`; `permitted` is false while macOS
/// reports a permission missing, `hotkey` is the hotkey's name and `error`
/// why the service stopped.
pub fn status_view(state: UiState, paused: bool, permitted: bool, hotkey: &str, error: &str) -> (r:
    StatusView)
    ensures
        r.symbol@ == status_symbol(state, paused, permitted),
        r.text@ == status_text(state, paused, permitted, hotkey@, error@),
        r.tooltip@ == "sayit: "@ + r.text@,
        r.fix_permissions == !permitted,
{
    let missing = !permitted && match state {
        UiState::Ready(_) => true,
        _ => false,
    };
    let (symbol, text) = if missing {
        (
            "exclamationmark.triangle",
            String::from_str("A permission is missing: choose Fix Permissions…"),
        )
    } else {
        match state {
            UiState::Loading => ("hourglass", String::from_str("Loading model…")),
            UiState::NeedsAccessibility => (
                "exclamationmark.triangle",
                String::from_str(
                    "Waiting for Accessibility permission (System Settings › Privacy & Security)",
                ),
            ),
            UiState::NeedsModel => (
                "arrow.down.circle",
                String::from_str("No speech model yet: download one in Settings"),
            ),
            UiState::Failed => {
                let mut t = String::from_str("Stopped: ");
                t.append(error);
                ("exclamationmark.triangle", t)
            },
            UiState::Ready(s) => if paused {
                ("mic.slash", String::from_str("Paused"))
            } else {
                match s {
                    Status::Idle => {
                        let mut t = String::from_str("Ready: hold ");
                        t.append(hotkey);
                        t.append(" to dictate");
                        ("mic", t)
                    },
                    Status::Recording => ("mic.fill", String::from_str("Listening…")),
                    Status::Transcribing => ("waveform", String::from_str("Transcribing…")),
                }
            },
        }
    };
    let mut tooltip = String::from_str("sayit: ");
    tooltip.append(text.as_str());
    StatusView { symbol, text, tooltip, fix_permissions: !permitted }
}

} // verus!

verus! {

/// Tag of the "System Default" microphone item; device items use tag 0 and
/// their title is the device name.
pub const DEFAULT_MIC_TAG: isize = 1;

/// An item of a picker submenu.
pub enum MenuEntry {
    /// A checkable item; one that is not enabled is shown greyed out.
    Choice { title: String, tag: isize, checked: bool, enabled: bool },
    Separator,
}

/// A menu item as shown.
pub struct ItemView {
    pub separator: bool,
    pub title: Seq<char>,
    pub tag: isize,
    pub checked: bool,
    pub enabled: bool,
}

pub open spec fn choice(title: Seq<char>, tag: isize, checked: bool, enabled: bool) -> ItemView {
    ItemView { separator: false, title, tag, checked, enabled }
}

pub open spec fn separator() -> ItemView {
    ItemView { separator: true, title: Seq::empty(), tag: 0, checked: false, enabled: false }
}

pub open spec fn item_view(e: MenuEntry) -> ItemView {
    match e {
        MenuEntry::Choice { title, tag, checked, enabled } => choice(title@, tag, checked, enabled),
        MenuEntry::Separator => separator(),
    }
}

pub open spec fn item_views(v: Seq<MenuEntry>) -> Seq<ItemView> {
    Seq::new(v.len(), |i: int| item_view(v[i]))
}

pub open spec fn string_views(v: Seq<String>) -> Seq<Seq<char>> {
    Seq::new(v.len(), |i: int| v[i]@)
}

pub open spec fn opt_view(o: Option<String>) -> Option<Seq<char>> {
    match o {
        Some(s) => Some(s@),
        None => None,
    }
}

/// One item per connected device, checked when it is the chosen one.
pub open spec fn device_items(names: Seq<Seq<char>>, current: Option<Seq<char>>) -> Seq<ItemView> {
    Seq::new(names.len(), |i: int| choice(names[i], 0, current == Some(names[i]), true))
}

/// The Microphone submenu: the system default, the connected devices, and
/// the chosen device greyed out when it is not connected (takes then use
/// the default).
pub open spec fn mic_items(current: Option<Seq<char>>, names: Seq<Seq<char>>) -> Seq<ItemView> {
    seq![choice("System Default"@, DEFAULT_MIC_TAG, current is None, true), separator()]
        + device_items(names, current) + match current {
        Some(c) => if names.contains(c) {
            Seq::empty()
        } else {
            seq![choice(c + " (not connected)"@, 0, true, false)]
        },
        None => Seq::empty(),
    }
}

fn copy_string(s: &String) -> (r: String)
    ensures
        r@ == s@,
{
    s.clone()
}

/// The Microphone submenu for the chosen device `current` and the names of
/// the connected devices.
pub fn mic_menu(current: &Option<String>, names: &Vec<String>) -> (r: Vec<MenuEntry>)
    ensures
        item_views(r@) == mic_items(opt_view(*current), string_views(names@)),
{
    let ghost cur = opt_view(*current);
    let ghost ns = string_views(names@);
    let mut r: Vec<MenuEntry> = Vec::new();
    r.push(
        MenuEntry::Choice {
            title: String::from_str("System Default"),
            tag: DEFAULT_MIC_TAG,
            checked: current.is_none(),
            enabled: true,
        },
    );
    r.push(MenuEntry::Separator);
    let ghost head = item_views(r@);
    assert(head =~= seq![choice("System Default"@, DEFAULT_MIC_TAG, cur is None, true), separator()]);
    let mut connected = false;
    let mut i: usize = 0;
    while i < names.len()
        invariant
            i <= names.len(),
            cur == opt_view(*current),
            ns == string_views(names@),
            r@.len() == 2 + i,
            item_views(r@) =~= head + device_items(ns.take(i as int), cur),
            connected == (cur matches Some(c) && ns.take(i as int).contains(c)),
        decreases names.len() - i,
    {
        let name = &names[i];
        let checked = match current {
            Some(c) => str_eq(c.as_str(), name.as_str()),
            None => false,
        };
        let ghost before = item_views(r@);
        r.push(MenuEntry::Choice { title: copy_string(name), tag: 0, checked, enabled: true });
        assert(ns.take(i + 1) =~= ns.take(i as int).push(ns[i as int]));
        assert(item_views(r@) =~= before.push(choice(ns[i as int], 0, cur == Some(ns[i as int]), true)));
        assert(device_items(ns.take(i + 1), cur) =~= device_items(ns.take(i as int), cur).push(
            choice(ns[i as int], 0, cur == Some(ns[i as int]), true),
        ));
        if checked {
            assert(ns.take(i + 1)[i as int] == ns[i as int]);
            connected = true;
        } else {
            proof {
                match cur {
                    Some(c) => {
                        if ns.take(i + 1).contains(c) {
                            let k = choose|k: int| 0 <= k < i + 1 && #[trigger] ns.take(i + 1)[k] == c;
                            if k < i {
                                assert(ns.take(i as int)[k] == c);
                            }
                        }
                    },
                    None => {},
                }
            }
        }
        i = i + 1;
    }
    assert(ns.take(names.len() as int) =~= ns);
    match current {
        Some(c) => if !connected {
            // The chosen device is unplugged: keep showing it, but takes use the default.
            let mut title = copy_string(c);
            title.append(" (not connected)");
            let ghost before = item_views(r@);
            r.push(MenuEntry::Choice { title, tag: 0, checked: true, enabled: false });
            assert(item_views(r@) =~= before.push(choice(c@ + " (not connected)"@, 0, true, false)));
        },
        None => {},
    }
    r
}

/// The picker submenus of the menu-bar menu, in order: the Microphone
/// menu, and the Model menu once there is a choice to make.
pub open spec fn picker_titles() -> Seq<Seq<char>> {
    if all_models().len() > 1 {
        seq!["Microphone"@, "Model"@]
    } else {
        seq!["Microphone"@]
    }
}

pub open spec fn str_views(v: Seq<&'static str>) -> Seq<Seq<char>> {
    Seq::new(v.len(), |i: int| v[i]@)
}

/// The titles of the picker submenus.
pub fn picker_menus() -> (r: Vec<&'static str>)
    ensures
        str_views(r@) == picker_titles(),
{
    let mut r: Vec<&'static str> = Vec::new();
    r.push("Microphone");
    if ModelId::all().len() > 1 {
        r.push("Model");
        assert(str_views(r@) =~= picker_titles());
    } else {
        assert(str_views(r@) =~= picker_titles());
    }
    r
}

/// The Model submenu: every model, checked when it is the one in use;
/// models not downloaded yet are greyed out.
pub open spec fn model_items(current: ModelId, installed: Seq<bool>) -> Seq<ItemView> {
    Seq::new(
        all_models().len(),
        |i: int|
            choice(
                if installed[i] {
                    model_label(all_models()[i])
                } else {
                    model_label(all_models()[i]) + " (not downloaded)"@
                },
                i as isize,
                all_models()[i] == current,
                installed[i],
            ),
    )
}

/// The Model submenu, for the model in use and whether each model (in the
/// order of `ModelId::all`) is downloaded.
pub fn model_menu(current: ModelId, installed: &Vec<bool>) -> (r: Vec<MenuEntry>)
    requires
        installed@.len() == all_models().len(),
    ensures
        item_views(r@) == model_items(current, installed@),
{
    let all = ModelId::all();
    let mut r: Vec<MenuEntry> = Vec::new();
    let mut i: usize = 0;
    while i < all.len()
        invariant
            all@ == all_models(),
            installed@.len() == all_models().len(),
            i <= all.len(),
            item_views(r@) =~= model_items(current, installed@).take(i as int),
        decreases all.len() - i,
    {
        let model = all[i];
        let mut title = String::from_str(model.label());
        if !installed[i] {
            title.append(" (not downloaded)");
        }
        let ghost before = item_views(r@);
        r.push(
            MenuEntry::Choice {
                title,
                tag: i as isize,
                checked: model == current,
                enabled: installed[i],
            },
        );
        assert(item_views(r@) =~= before.push(model_items(current, installed@)[i as int]));
        i = i + 1;
    }
    r
}

} // verus!

verus! {

/// On/off settings shown as switches in the Settings window. The switch tag
/// is the index in `Toggle::all`.
#[derive(Debug, Clone, Copy, PartialEq, Eq, Structural)]
pub enum Toggle {
    RemoveFillers,
    NewlineAfterTake,
    RestoreClipboard,
}

pub open spec fn all_toggles() -> Seq<Toggle> {
    seq![Toggle::RemoveFillers, Toggle::NewlineAfterTake, Toggle::RestoreClipboard]
}

/// The live switch of `t` that the dictation service reads.
pub open spec fn toggle_flag(c: Controls, t: Toggle) -> bool {
    match t {
        Toggle::RemoveFillers => c.remove_fillers,
        Toggle::NewlineAfterTake => c.newline_after_take,
        Toggle::RestoreClipboard => c.restore_clipboard,
    }
}

/// `c` with the live switch of `t` set to `on`.
pub open spec fn with_toggle_flag(c: Controls, t: Toggle, on: bool) -> Controls {
    match t {
        Toggle::RemoveFillers => Controls { remove_fillers: on, ..c },
        Toggle::NewlineAfterTake => Controls { newline_after_take: on, ..c },
        Toggle::RestoreClipboard => Controls { restore_clipboard: on, ..c },
    }
}

/// The setting of `t` in config.toml.
pub open spec fn toggle_field(cfg: Config, t: Toggle) -> bool {
    match t {
        Toggle::RemoveFillers => cfg.remove_fillers,
        Toggle::NewlineAfterTake => cfg.newline_after_take,
        Toggle::RestoreClipboard => cfg.restore_clipboard,
    }
}

/// `cfg` with the setting of `t` set to `on`.
pub open spec fn with_toggle_field(cfg: Config, t: Toggle, on: bool) -> Config {
    match t {
        Toggle::RemoveFillers => Config { remove_fillers: on, ..cfg },
        Toggle::NewlineAfterTake => Config { newline_after_take: on, ..cfg },
        Toggle::RestoreClipboard => Config { restore_clipboard: on, ..cfg },
    }
}

impl Toggle {
    /// The switches, in the order they are shown.
    pub fn all() -> (r: Vec<Toggle>)
        ensures
            r@ == all_toggles(),
    {
        let r = vec![Toggle::RemoveFillers, Toggle::NewlineAfterTake, Toggle::RestoreClipboard];
        assert(r@ =~= all_toggles());
        r
    }

    /// The switch with tag `tag`, if any.
    pub fn at(tag: isize) -> (r: Option<Toggle>)
        ensures
            0 <= tag < 3 ==> r == Some(all_toggles()[tag as int]),
            !(0 <= tag < 3) ==> r is None,
    {
        let all = Toggle::all();
        if tag >= 0 && (tag as usize) < all.len() {
            Some(all[tag as usize])
        } else {
            None
        }
    }

    pub fn title(self) -> (r: &'static str)
        ensures
            r@ == match self {
                Toggle::RemoveFillers => "Remove filler words"@,
                Toggle::NewlineAfterTake => "Start each dictation on a new line"@,
                Toggle::RestoreClipboard => "Restore my clipboard after pasting"@,
            },
    {
        match self {
            Toggle::RemoveFillers => "Remove filler words",
            Toggle::NewlineAfterTake => "Start each dictation on a new line",
            Toggle::RestoreClipboard => "Restore my clipboard after pasting",
        }
    }

    pub fn explanation(self) -> (r: &'static str)
        ensures
            r@ == match self {
                Toggle::RemoveFillers => "Drops \"um\", \"uh\" and \"erm\" from what you dictate."@,
                Toggle::NewlineAfterTake =>
                    "Otherwise a space is added. Turn this off if you dictate into terminals, where a new line can run a command."@,
                Toggle::RestoreClipboard =>
                    "sayit pastes through the clipboard. On: what you had copied before dictating is put back. Off: the dictated text stays on the clipboard."@,
            },
    {
        match self {
            Toggle::RemoveFillers => "Drops \"um\", \"uh\" and \"erm\" from what you dictate.",
            Toggle::NewlineAfterTake =>
                "Otherwise a space is added. Turn this off if you dictate into terminals, where a new line can run a command.",
            Toggle::RestoreClipboard =>
                "sayit pastes through the clipboard. On: what you had copied before dictating is put back. Off: the dictated text stays on the clipboard.",
        }
    }

    /// The live switch the dictation service reads.
    pub fn flag(self, controls: &mut Controls) -> (r: &mut bool)
        ensures
            *r == toggle_flag(*old(controls), self),
            *final(controls) == with_toggle_flag(*old(controls), self, *final(r)),
    {
        match self {
            Toggle::RemoveFillers => &mut controls.remove_fillers,
            Toggle::NewlineAfterTake => &mut controls.newline_after_take,
            Toggle::RestoreClipboard => &mut controls.restore_clipboard,
        }
    }

    /// The same setting in config.toml.
    pub fn field(self, cfg: &mut Config) -> (r: &mut bool)
        ensures
            *r == toggle_field(*old(cfg), self),
            *final(cfg) == with_toggle_field(*old(cfg), self, *final(r)),
    {
        match self {
            Toggle::RemoveFillers => &mut cfg.remove_fillers,
            Toggle::NewlineAfterTake => &mut cfg.newline_after_take,
            Toggle::RestoreClipboard => &mut cfg.restore_clipboard,
        }
    }
}

/// Each switch reads, at start-up, the setting it stores: the live flag of
/// a toggle is the config field of the same toggle.
pub proof fn law_toggle_flag_is_its_field(cfg: Config, t: Toggle)
    ensures
        toggle_flag(crate::daemon::controls_for(cfg), t) == toggle_field(cfg, t),
{
}

/// Setting a switch changes that setting and no other, in the live
/// settings and in config.toml alike.
pub proof fn law_toggle_changes_one_setting(c: Controls, cfg: Config, t: Toggle, u: Toggle, on: bool)
    ensures
        toggle_flag(with_toggle_flag(c, t, on), t) == on,
        toggle_field(with_toggle_field(cfg, t, on), t) == on,
        u != t ==> toggle_flag(with_toggle_flag(c, t, on), u) == toggle_flag(c, u),
        u != t ==> toggle_field(with_toggle_field(cfg, t, on), u) == toggle_field(cfg, u),
        with_toggle_flag(c, t, on).paused == c.paused,
        with_toggle_flag(c, t, on).model == c.model,
        with_toggle_flag(c, t, on).input_device == c.input_device,
{
}

} // verus!

verus! {

pub open spec fn digit_char(d: int) -> char {
    if d == 0 {
        '0'
    } else if d == 1 {
        '1'
    } else if d == 2 {
        '2'
    } else if d == 3 {
        '3'
    } else if d == 4 {
        '4'
    } else if d == 5 {
        '5'
    } else if d == 6 {
        '6'
    } else if d == 7 {
        '7'
    } else if d == 8 {
        '8'
    } else {
        '9'
    }
}

/// `n` written in decimal.
pub open spec fn decimal(n: nat) -> Seq<char>
    decreases n,
{
    if n < 10 {
        seq![digit_char(n as int)]
    } else {
        decimal(n / 10).push(digit_char((n % 10) as int))
    }
}

fn digit(d: u64) -> (c: char)
    requires
        d < 10,
    ensures
        c == digit_char(d as int),
{
    match d {
        0 => '0',
        1 => '1',
        2 => '2',
        3 => '3',
        4 => '4',
        5 => '5',
        6 => '6',
        7 => '7',
        8 => '8',
        _ => '9',
    }
}

fn decimal_digits(n: u64) -> (r: Vec<char>)
    ensures
        r@ == decimal(n as nat),
    decreases n,
{
    if n < 10 {
        let r = vec![digit(n)];
        assert(r@ =~= decimal(n as nat));
        r
    } else {
        let mut r = decimal_digits(n / 10);
        r.push(digit(n % 10));
        r
    }
}

/// The setup assistant's pages, in order: welcome, choose and download a
/// model, then a short how-to.
#[derive(Debug, Clone, Copy, PartialEq, Eq, Structural)]
pub enum Page {
    Welcome,
    Model,
    Done,
}

pub open spec fn pages() -> Seq<Page> {
    seq![Page::Welcome, Page::Model, Page::Done]
}

/// What the assistant shows on one page.
pub struct SetupNav {
    /// The page shown.
    pub index: usize,
    /// e.g. "Step 1 of 3".
    pub step: String,
    pub back_hidden: bool,
    /// "Continue", or "Finish" on the last page.
    pub next_title: &'static str,
}

/// Going to page `index` (the last one if it is past the end).
pub fn setup_nav(index: usize) -> (r: SetupNav)
    ensures
        r.index == if index < 2 {
            index
        } else {
            2
        },
        r.step@ == "Step "@ + decimal(r.index as nat + 1) + " of "@ + decimal(3),
        r.back_hidden == (r.index == 0),
        r.next_title@ == if r.index == 2 {
            "Finish"@
        } else {
            "Continue"@
        },
{
    let index = if index < 2 {
        index
    } else {
        2
    };
    let mut step = String::from_str("Step ");
    let n = decimal_digits(index as u64 + 1);
    step.append(string_of(&n).as_str());
    step.append(" of ");
    let total = decimal_digits(3);
    step.append(string_of(&total).as_str());
    let next_title = if index == 2 {
        "Finish"
    } else {
        "Continue"
    };
    SetupNav { index, step, back_hidden: index == 0, next_title }
}

/// Continue is only enabled once the current page is complete: the model
/// page needs the chosen model downloaded.
pub fn setup_ready(index: usize, model_installed: bool) -> (r: bool)
    requires
        index < 3,
    ensures
        r == (pages()[index as int] == Page::Model ==> model_installed),
{
    if index == 1 {
        model_installed
    } else {
        true
    }
}

/// The page Back goes to.
pub fn setup_back(index: usize) -> (r: usize)
    ensures
        r == if index > 0 {
            index - 1
        } else {
            0
        },
{
    index.saturating_sub(1)
}

/// The page Continue goes to; None on the last page, where it finishes setup.
pub fn setup_next(index: usize) -> (r: Option<usize>)
    requires
        index < 3,
    ensures
        index < 2 ==> r == Some((index + 1) as usize),
        index == 2 ==> r is None,
{
    if index == 2 {
        None
    } else {
        Some(index + 1)
    }
}

/// The label on a model card.
#[derive(Debug, Clone, Copy, PartialEq, Eq, Structural)]
pub enum Badge {
    InUse,
    Recommended,
    Plain,
}

/// The status line of a model card.
pub enum CardStatus {
    /// Downloading, this far along (percent).
    Downloading { percent: u64 },
    /// The last download of this model failed, with this reason.
    Failed(String),
    Downloaded,
    NotDownloaded,
}

/// What a model card in Settings and in the setup assistant shows.
pub struct CardView {
    pub badge: Badge,
    pub status: CardStatus,
    pub progress_hidden: bool,
    /// "Cancel" while this model downloads, otherwise "Download".
    pub download_title: &'static str,
    pub download_hidden: bool,
    pub download_enabled: bool,
    pub choose_hidden: bool,
    pub delete_hidden: bool,
}

/// The download progress of `model` when it is the one downloading.
pub open spec fn progress_of(model: ModelId, downloading: Option<(ModelId, u64)>) -> Option<u64> {
    match downloading {
        Some((m, p)) => if m == model {
            Some(p)
        } else {
            None
        },
        None => None,
    }
}

/// Why the last download of `model` failed, when the last failed one is it.
pub open spec fn error_of(model: ModelId, error: Option<(ModelId, String)>) -> Option<Seq<char>> {
    match error {
        Some((m, e)) => if m == model {
            Some(e@)
        } else {
            None
        },
        None => None,
    }
}

/// The card of `model`: `installed` says whether it is downloaded,
/// `current` is the model in use, `downloading` the model being downloaded
/// and its progress, `error` the last failed download and why.
pub fn card_view(
    model: ModelId,
    installed: bool,
    current: ModelId,
    downloading: Option<(ModelId, u64)>,
    error: &Option<(ModelId, String)>,
) -> (r: CardView)
    ensures
        r.badge == if current == model && installed {
            Badge::InUse
        } else if model == default_model() {
            Badge::Recommended
        } else {
            Badge::Plain
        },
        progress_of(model, downloading) matches Some(p) ==> r.status == (CardStatus::Downloading {
            percent: p,
        }),
        progress_of(model, downloading) is None && error_of(model, *error) is Some ==> (
        r.status matches CardStatus::Failed(f) && Some(f@) == error_of(model, *error)),
        progress_of(model, downloading) is None && error_of(model, *error) is None
            ==> r.status == if installed {
            CardStatus::Downloaded
        } else {
            CardStatus::NotDownloaded
        },
        r.progress_hidden == progress_of(model, downloading) is None,
        r.download_title@ == if progress_of(model, downloading) is Some {
            "Cancel"@
        } else {
            "Download"@
        },
        r.download_hidden == (installed && progress_of(model, downloading) is None),
        // Only one model downloads at a time.
        r.download_enabled == !(downloading is Some && progress_of(model, downloading) is None),
        // The model in use can't be deleted; choose another one first.
        r.choose_hidden == (!installed || current == model),
        r.delete_hidden == (!installed || current == model),
{
    let progress = match downloading {
        Some((m, p)) => if m == model {
            Some(p)
        } else {
            None
        },
        None => None,
    };
    let busy_elsewhere = downloading.is_some() && progress.is_none();
    let badge = if current == model && installed {
        Badge::InUse
    } else if model == ModelId::DEFAULT {
        Badge::Recommended
    } else {
        Badge::Plain
    };
    let status = match progress {
        Some(p) => CardStatus::Downloading { percent: p },
        None => match error {
            Some((m, e)) => if *m == model {
                CardStatus::Failed(e.clone())
            } else if installed {
                CardStatus::Downloaded
            } else {
                CardStatus::NotDownloaded
            },
            None => if installed {
                CardStatus::Downloaded
            } else {
                CardStatus::NotDownloaded
            },
        },
    };
    CardView {
        badge,
        status,
        progress_hidden: progress.is_none(),
        download_title: if progress.is_some() {
            "Cancel"
        } else {
            "Download"
        },
        download_hidden: installed && progress.is_none(),
        download_enabled: !busy_elsewhere,
        choose_hidden: !installed || current == model,
        delete_hidden: !installed || current == model,
    }
}

/// The words on a card's badge.
pub open spec fn badge_words(b: Badge) -> Seq<char> {
    match b {
        Badge::InUse => "In use"@,
        Badge::Recommended => "Recommended"@,
        Badge::Plain => Seq::empty(),
    }
}

pub fn badge_title(b: Badge) -> (r: &'static str)
    ensures
        r@ == badge_words(b),
{
    proof {
        reveal_strlit("");
    }
    match b {
        Badge::InUse => "In use",
        Badge::Recommended => "Recommended",
        Badge::Plain => "",
    }
}

/// A download size in whole megabytes, e.g. "660 MB".
pub open spec fn size_words(bytes: u64) -> Seq<char> {
    decimal((bytes / 1_000_000) as nat) + " MB"@
}

/// A card's status line, for a model whose download is `bytes` long.
pub open spec fn status_words(status: CardStatus, bytes: u64) -> Seq<char> {
    match status {
        CardStatus::Downloading { percent } => "Downloading… "@ + decimal(percent as nat) + "% of "@
            + size_words(bytes),
        CardStatus::Failed(e) => "Download failed: "@ + e@,
        CardStatus::Downloaded => "Downloaded · "@ + size_words(bytes),
        CardStatus::NotDownloaded => "Not downloaded · "@ + size_words(bytes),
    }
}

fn size_text(bytes: u64) -> (r: String)
    ensures
        r@ == size_words(bytes),
{
    let digits = decimal_digits(bytes / 1_000_000);
    let mut r = string_of(&digits);
    r.append(" MB");
    r
}

/// The status line of a card, for a model whose download is
/// `download_bytes` long.
pub fn card_status_line(status: &CardStatus, download_bytes: u64) -> (r: String)
    ensures
        r@ == status_words(*status, download_bytes),
{
    match status {
        CardStatus::Downloading { percent } => {
            let mut r = String::from_str("Downloading… ");
            let digits = decimal_digits(*percent);
            r.append(string_of(&digits).as_str());
            r.append("% of ");
            r.append(size_text(download_bytes).as_str());
            r
        },
        CardStatus::Failed(e) => {
            let mut r = String::from_str("Download failed: ");
            r.append(e.as_str());
            r
        },
        CardStatus::Downloaded => {
            let mut r = String::from_str("Downloaded · ");
            r.append(size_text(download_bytes).as_str());
            r
        },
        CardStatus::NotDownloaded => {
            let mut r = String::from_str("Not downloaded · ");
            r.append(size_text(download_bytes).as_str());
            r
        },
    }
}

/// What a click on a model's Download button does.
#[derive(Debug, Clone, Copy, PartialEq, Eq, Structural)]
pub enum DownloadClick {
    /// The button reads Cancel: stop the download of this model.
    Cancel,
    /// Another model is downloading: at most one downloads at a time.
    Ignore,
    Start,
}

pub fn download_click(active: Option<ModelId>, clicked: ModelId) -> (r: DownloadClick)
    ensures
        active is None ==> r == DownloadClick::Start,
        active == Some(clicked) ==> r == DownloadClick::Cancel,
        active matches Some(m) && m != clicked ==> r == DownloadClick::Ignore,
{
    match active {
        Some(m) => if m == clicked {
            DownloadClick::Cancel
        } else {
            DownloadClick::Ignore
        },
        None => DownloadClick::Start,
    }
}

/// What happens once a download ended.
pub enum AfterDownload {
    /// With nothing usable yet (e.g. first run), use the new model.
    UseModel,
    Nothing,
    /// Cancel means "leave nothing behind": remove the partial files.
    RemovePartial,
    /// Show why it failed on the model's card.
    ShowError(String),
}

/// `in_use_installed` says whether the model in use is downloaded.
pub fn after_download(finished: Finished, in_use_installed: bool) -> (r: AfterDownload)
    ensures
        finished is Installed && !in_use_installed ==> r is UseModel,
        finished is Installed && in_use_installed ==> r is Nothing,
        finished is Cancelled ==> r is RemovePartial,
        finished matches Finished::Failed(e) ==> r matches AfterDownload::ShowError(s) && s == e,
{
    match finished {
        Finished::Installed => if !in_use_installed {
            AfterDownload::UseModel
        } else {
            AfterDownload::Nothing
        },
        Finished::Cancelled => AfterDownload::RemovePartial,
        Finished::Failed(e) => AfterDownload::ShowError(e),
    }
}

/// The model in use can't be deleted (its Delete button is hidden).
pub fn may_delete(model: ModelId, in_use: ModelId) -> (r: bool)
    ensures
        r == (model != in_use),
{
    model != in_use
}

/// A permission's state, for the setup checklist.
#[derive(Debug, Clone, Copy, PartialEq, Eq, Structural)]
pub enum Access {
    Allowed,
    /// Never asked: requesting shows the macOS prompt.
    NotAsked,
    /// Refused (or blocked by a profile): only System Settings can change it.
    Denied,
}

/// The Accessibility permission, from whether macOS trusts sayit.
pub fn accessibility(trusted: bool) -> (r: Access)
    ensures
        r == if trusted {
            Access::Allowed
        } else {
            Access::NotAsked
        },
{
    if trusted {
        Access::Allowed
    } else {
        Access::NotAsked
    }
}

/// The Microphone permission, from AVFoundation's authorization status.
pub fn microphone_access(status: isize) -> (r: Access)
    ensures
        status == 3 ==> r == Access::Allowed,
        status == 0 ==> r == Access::NotAsked,
        status != 3 && status != 0 ==> r == Access::Denied,
{
    // AVAuthorizationStatus: 0 NotDetermined, 1 Restricted, 2 Denied, 3 Authorized.
    if status == 3 {
        Access::Allowed
    } else if status == 0 {
        Access::NotAsked
    } else {
        Access::Denied
    }
}

/// Asking for the microphone shows the macOS prompt the first time; after
/// a refusal macOS won't ask again, so System Settings is opened instead.
pub fn microphone_opens_settings(current: Access) -> (r: bool)
    ensures
        r == (current != Access::NotAsked),
{
    current != Access::NotAsked
}

/// "Start at login" through macOS's login-items service.
#[derive(Debug, Clone, Copy, PartialEq, Eq, Structural)]
pub enum Login {
    /// Only the installed sayit.app can be a login item, not a binary run
    /// from a terminal.
    Unavailable,
    Off,
    On,
    /// Turned on, but macOS wants the user to allow it in System Settings.
    NeedsApproval,
}

/// The login item's state, from the service's status (None when sayit does
/// not run as the installed app, so has no service).
pub fn login_status(service_status: Option<isize>) -> (r: Login)
    ensures
        service_status is None ==> r == Login::Unavailable,
        service_status == Some(1isize) ==> r == Login::On,
        service_status == Some(2isize) ==> r == Login::NeedsApproval,
        service_status matches Some(s) && s != 1 && s != 2 ==> r == Login::Off,
{
    match service_status {
        None => Login::Unavailable,
        Some(1) => Login::On,  // SMAppServiceStatusEnabled
        Some(2) => Login::NeedsApproval,  // SMAppServiceStatusRequiresApproval
        Some(_) => Login::Off,  // NotRegistered or NotFound
    }
}

/// The address of a Privacy & Security pane of System Settings.
pub fn privacy_pane_url(anchor: &str) -> (r: String)
    ensures
        r@ == "x-apple.systempreferences:com.apple.preference.security?"@ + anchor@,
{
    let mut r = String::from_str("x-apple.systempreferences:com.apple.preference.security?");
    r.append(anchor);
    r
}

/// The menu-bar app where there is none yet: on Linux (no StatusNotifierItem
/// tray yet) it refuses to start.
pub fn run(cfg: Config, verbose: bool) -> (r: Result<(), String>)
    ensures
        r matches Err(e) && e@ == "the menu-bar app is macOS-only for now; use `sayit run` on Linux"@,
{
    Err(String::from_str("the menu-bar app is macOS-only for now; use `sayit run` on Linux"))
}

/// The icon and status line name what the service is doing: recording
/// shows "mic.fill" and "Listening…", transcribing "waveform" and
/// "Transcribing…", idle "mic" and how to start; the three look different.
/// Paused overrides them, and a missing permission overrides everything.
pub proof fn law_status_names_the_state(s: Status, paused: bool, hotkey: Seq<char>, error: Seq<char>)
    ensures
        status_symbol(UiState::Ready(Status::Recording), false, true) == "mic.fill"@,
        status_text(UiState::Ready(Status::Recording), false, true, hotkey, error) == "Listening…"@,
        status_symbol(UiState::Ready(Status::Transcribing), false, true) == "waveform"@,
        status_text(UiState::Ready(Status::Transcribing), false, true, hotkey, error)
            == "Transcribing…"@,
        status_symbol(UiState::Ready(Status::Idle), false, true) == "mic"@,
        status_text(UiState::Ready(Status::Idle), false, true, hotkey, error) == "Ready: hold "@
            + hotkey + " to dictate"@,
        status_symbol(UiState::Ready(Status::Recording), false, true) != status_symbol(
            UiState::Ready(Status::Transcribing),
            false,
            true,
        ),
        status_text(UiState::Ready(Status::Recording), false, true, hotkey, error) != status_text(
            UiState::Ready(Status::Transcribing),
            false,
            true,
            hotkey,
            error,
        ),
        status_symbol(UiState::Ready(s), true, true) == "mic.slash"@,
        status_text(UiState::Ready(s), true, true, hotkey, error) == "Paused"@,
        status_symbol(UiState::Ready(s), paused, false) == "exclamationmark.triangle"@,
{
    reveal_strlit("mic.fill");
    reveal_strlit("waveform");
    reveal_strlit("Listening…");
    reveal_strlit("Transcribing…");
    assert("mic.fill"@[0] != "waveform"@[0]);
    assert("Listening…"@.len() != "Transcribing…"@.len());
}

/// In the Microphone menu, "System Default" is checked exactly when no
/// device is chosen, and each connected device is listed under its name,
/// enabled, and checked exactly when it is the chosen one; so among
/// devices of different names at most one is checked.
pub proof fn law_only_the_chosen_device_is_checked(
    current: Option<Seq<char>>,
    names: Seq<Seq<char>>,
)
    ensures
        mic_items(current, names)[0].title == "System Default"@,
        mic_items(current, names)[0].checked == (current is None),
        forall|i: int|
            0 <= i < names.len() ==> {
                let it = #[trigger] mic_items(current, names)[2 + i];
                &&& !it.separator
                &&& it.title == names[i]
                &&& it.enabled
                &&& it.checked == (current == Some(names[i]))
            },
        forall|i: int, j: int|
            0 <= i < names.len() && 0 <= j < names.len() && names[i] != names[j] ==> !(
            #[trigger] mic_items(current, names)[2 + i].checked && #[trigger] mic_items(
                current,
                names,
            )[2 + j].checked),
{
    let items = mic_items(current, names);
    let head = seq![choice("System Default"@, DEFAULT_MIC_TAG, current is None, true), separator()];
    assert(items[0] == head[0]);
    assert forall|i: int| 0 <= i < names.len() implies {
        let it = #[trigger] mic_items(current, names)[2 + i];
        &&& !it.separator
        &&& it.title == names[i]
        &&& it.enabled
        &&& it.checked == (current == Some(names[i]))
    } by {
        assert(items[2 + i] == device_items(names, current)[i]);
    }
    assert forall|i: int, j: int|
        0 <= i < names.len() && 0 <= j < names.len() && names[i] != names[j] implies !(
        #[trigger] mic_items(current, names)[2 + i].checked && #[trigger] mic_items(
            current,
            names,
        )[2 + j].checked) by {
        assert(items[2 + i] == device_items(names, current)[i]);
        assert(items[2 + j] == device_items(names, current)[j]);
    }
}

} // verus!
