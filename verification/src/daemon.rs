//! Decisions of the long-running dictation service.
//!
//! The service has a hotkey listener, a controller that owns the microphone
//! and a worker that owns the model and pastes the text. The threads, the
//! microphone and the model live outside this module; here are the
//! decisions they act on: what a hotkey event or the passing of time does to
//! the take in progress, what the menu-bar icon shows, when the model is
//! loaded or freed, and what gets pasted.

use vstd::prelude::*;

use crate::chars::{debug_quoted, debug_str};
use crate::config::{Config, Mode};
use crate::stt::ModelId;
use crate::text::{remove_fillers, without_fillers};

verus! {

/// Presses shorter than this are treated as accidental (e.g. Opt+key
/// combos): 250 ms, in nanoseconds.
pub const MIN_HOLD_NANOS: u64 = 250_000_000;

/// Upper bound for `max_recording_secs`: an hour of audio is ~200 MB in memory.
pub const MAX_RECORDING_SECS: u64 = 3600;

/// What the service is doing, for the menu-bar icon. Recording wins over
/// transcribing when both are true (the user started a new take while the
/// last one is still being transcribed).
#[derive(Debug, Clone, Copy, PartialEq, Eq, Structural)]
pub enum Status {
    Idle,
    Recording,
    Transcribing,
}

/// Whether the hotkey went down or up.
#[derive(Debug, Clone, Copy, PartialEq, Eq, Structural)]
pub enum KeyState {
    Pressed,
    Released,
}

#[verifier::external_type_specification]
#[verifier::external_body]
pub struct ExHotkey(handy_keys::Hotkey);

/// Whether `handy_keys` accepts `s` as a hotkey.
pub uninterp spec fn hotkey_accepts(s: Seq<char>) -> bool;

/// The message of the error with which `handy_keys` refuses `s` as a hotkey.
pub uninterp spec fn hotkey_error_text(s: Seq<char>) -> Seq<char>;

/// The hotkey that `handy_keys` reads from `s`.
pub uninterp spec fn parsed_hotkey(s: Seq<char>) -> handy_keys::Hotkey;

/// `<handy_keys::Hotkey as FromStr>::from_str`, with the error turned into
/// its message.
///
/// The contract claims that whether `s` is accepted, the hotkey read from
/// it and the error message if it is refused depend on `s` alone, and that
/// an empty string is refused (the crate returns `Error::EmptyHotkey` for a
/// string that is empty after trimming). What is inside the hotkey is
/// opaque here.
#[verifier::external_body]
fn parse_hotkey(s: &str) -> (r: Result<handy_keys::Hotkey, String>)
    ensures
        r is Ok <==> hotkey_accepts(s@),
        r matches Ok(h) ==> h == parsed_hotkey(s@),
        r matches Err(e) ==> e@ == hotkey_error_text(s@),
        s@.len() == 0 ==> r is Err,
{
    match s.parse::<handy_keys::Hotkey>() {
        Ok(h) => Ok(h),
        Err(e) => Err(e.to_string()),
    }
}

/// The error for a hotkey setting `s` that `handy_keys` refuses.
pub open spec fn invalid_hotkey_message(s: Seq<char>) -> Seq<char> {
    "invalid hotkey "@ + debug_quoted(s) + ": "@ + hotkey_error_text(s)
}

/// The hotkey that the `hotkey` setting names.
pub fn hotkey_from_setting(s: &str) -> (r: Result<handy_keys::Hotkey, String>)
    ensures
        r is Ok <==> hotkey_accepts(s@),
        r matches Ok(h) ==> h == parsed_hotkey(s@),
        r matches Err(e) ==> e@ == invalid_hotkey_message(s@),
        s@.len() == 0 ==> r is Err,
{
    match parse_hotkey(s) {
        Ok(h) => Ok(h),
        Err(e) => {
            let mut msg = String::from_str("invalid hotkey ");
            let quoted = debug_str(s);
            msg.append(quoted.as_str());
            msg.append(": ");
            msg.append(e.as_str());
            Err(msg)
        },
    }
}

/// Settings the UI can change while the service runs.
pub struct Controls {
    /// While set the hotkey is ignored and any take in progress is discarded.
    pub paused: bool,
    /// Microphone name for the next take (None = system default).
    pub input_device: Option<String>,
    /// Speech model; the worker switches before the next take.
    pub model: ModelId,
    /// Drop filler words from the next take.
    pub remove_fillers: bool,
    /// End the next take with a line break (otherwise a space).
    pub newline_after_take: bool,
    /// Put the clipboard back after pasting the next take.
    pub restore_clipboard: bool,
}

/// The live settings at start-up: those of `cfg`, not paused.
pub open spec fn controls_for(cfg: Config) -> Controls {
    Controls {
        paused: false,
        input_device: cfg.input_device,
        model: cfg.model,
        remove_fillers: cfg.remove_fillers,
        newline_after_take: cfg.newline_after_take,
        restore_clipboard: cfg.restore_clipboard,
    }
}

impl Controls {
    /// The live settings at start-up: those of `cfg`, not paused.
    pub fn new(cfg: &Config) -> (r: Controls)
        ensures
            r == controls_for(*cfg),
    {
        Controls {
            paused: false,
            input_device: clone_name(&cfg.input_device),
            model: cfg.model,
            remove_fillers: cfg.remove_fillers,
            newline_after_take: cfg.newline_after_take,
            restore_clipboard: cfg.restore_clipboard,
        }
    }

    pub fn model(&self) -> (r: ModelId)
        ensures
            r == self.model,
    {
        self.model
    }

    pub fn input_device(&self) -> (r: Option<String>)
        ensures
            r == self.input_device,
    {
        clone_name(&self.input_device)
    }
}

fn clone_name(name: &Option<String>) -> (r: Option<String>)
    ensures
        r == *name,
{
    match name {
        Some(s) => Some(s.clone()),
        None => None,
    }
}

/// The status shown for whether a take is being recorded and how many
/// takes wait to be transcribed.
pub open spec fn status_of(recording: bool, pending: u32) -> Status {
    if recording {
        Status::Recording
    } else if pending > 0 {
        Status::Transcribing
    } else {
        Status::Idle
    }
}

/// What an update reports, given the status reported last.
pub open spec fn reported(last: Status, recording: bool, pending: u32) -> Option<Status> {
    if status_of(recording, pending) != last {
        Some(status_of(recording, pending))
    } else {
        None
    }
}

/// Combines the controller's and the worker's state into one `Status`, and
/// reports it only when it changes.
pub struct Reporter {
    /// A take is being recorded.
    pub recording: bool,
    /// Takes handed to the worker and not finished yet.
    pub pending: u32,
    /// The status reported last.
    pub last: Status,
}

/// The reporter after a take stopped recording and was handed to the worker.
pub open spec fn queued(r: Reporter) -> Reporter {
    Reporter {
        recording: false,
        pending: (r.pending + 1) as u32,
        last: status_of(false, (r.pending + 1) as u32),
    }
}

/// The reporter after the worker finished a take.
pub open spec fn take_done(r: Reporter) -> Reporter {
    let pending = if r.pending > 0 {
        (r.pending - 1) as u32
    } else {
        0u32
    };
    Reporter { recording: r.recording, pending, last: status_of(r.recording, pending) }
}

impl Reporter {
    pub fn new() -> (r: Reporter)
        ensures
            !r.recording,
            r.pending == 0,
            r.last == Status::Idle,
    {
        Reporter { recording: false, pending: 0, last: Status::Idle }
    }

    /// Sets the state; returns the new status if it differs from the one
    /// reported last.
    pub fn update(&mut self, recording: bool, pending: u32) -> (r: Option<Status>)
        ensures
            final(self).recording == recording,
            final(self).pending == pending,
            final(self).last == status_of(recording, pending),
            r == reported(old(self).last, recording, pending),
    {
        self.recording = recording;
        self.pending = pending;
        let now = if recording {
            Status::Recording
        } else if pending > 0 {
            Status::Transcribing
        } else {
            Status::Idle
        };
        if now != self.last {
            self.last = now;
            Some(now)
        } else {
            None
        }
    }

    /// A take stopped recording and was handed to the worker.
    pub fn queue_take(&mut self) -> (r: Option<Status>)
        requires
            old(self).pending < u32::MAX,
        ensures
            !final(self).recording,
            final(self).pending == old(self).pending + 1,
            final(self).last == status_of(false, final(self).pending),
            *final(self) == queued(*old(self)),
            r == reported(old(self).last, false, final(self).pending),
    {
        let pending = self.pending + 1;
        self.update(false, pending)
    }

    /// The worker finished a take.
    pub fn finish_take(&mut self) -> (r: Option<Status>)
        ensures
            final(self).recording == old(self).recording,
            final(self).pending == if old(self).pending > 0 {
                (old(self).pending - 1) as u32
            } else {
                0
            },
            final(self).last == status_of(final(self).recording, final(self).pending),
            *final(self) == take_done(*old(self)),
            r == reported(old(self).last, final(self).recording, final(self).pending),
    {
        let pending = self.pending.saturating_sub(1);
        let recording = self.recording;
        self.update(recording, pending)
    }
}

/// Whether a hotkey event starts or stops a take.
#[derive(Debug, Clone, Copy, PartialEq, Eq, Structural)]
pub enum Edge {
    Start,
    Stop,
}

pub open spec fn key_edge_of(mode: Mode, key: KeyState, recording: bool) -> Option<Edge> {
    match (mode, key) {
        (Mode::Hold, KeyState::Pressed) => if recording {
            None
        } else {
            Some(Edge::Start)
        },
        (Mode::Hold, KeyState::Released) => if recording {
            Some(Edge::Stop)
        } else {
            None
        },
        (Mode::Toggle, KeyState::Pressed) => if recording {
            Some(Edge::Stop)
        } else {
            Some(Edge::Start)
        },
        (Mode::Toggle, KeyState::Released) => None,
    }
}

/// Hold mode: pressing starts a take and releasing stops it. Toggle mode:
/// each press starts or stops one.
pub fn key_edge(mode: Mode, key: KeyState, recording: bool) -> (r: Option<Edge>)
    ensures
        r == key_edge_of(mode, key, recording),
{
    match (mode, key) {
        (Mode::Hold, KeyState::Pressed) => if recording {
            None
        } else {
            Some(Edge::Start)
        },
        (Mode::Hold, KeyState::Released) => if recording {
            Some(Edge::Stop)
        } else {
            None
        },
        (Mode::Toggle, KeyState::Pressed) => if recording {
            Some(Edge::Stop)
        } else {
            Some(Edge::Start)
        },
        (Mode::Toggle, KeyState::Released) => None,
    }
}

/// What the controller does next.
#[derive(Debug, Clone, Copy, PartialEq, Eq, Structural)]
pub enum Decision {
    /// Nothing to do.
    Wait,
    /// Stop the take in progress and throw its audio away.
    Discard,
    /// The take reached the maximum length: stop it and transcribe it.
    CutOff,
    /// Stop the take in progress and transcribe it.
    Transcribe,
    /// Warm up the model and open the microphone for a new take.
    StartTake,
}

pub open spec fn decide_of(
    mode: Mode,
    max_take_nanos: u64,
    paused: bool,
    recording_for: Option<u64>,
    event: Option<KeyState>,
) -> Decision {
    if paused {
        if recording_for is Some {
            Decision::Discard
        } else {
            Decision::Wait
        }
    } else if recording_for matches Some(t) && t > max_take_nanos {
        Decision::CutOff
    } else {
        match event {
            None => Decision::Wait,
            Some(key) => match key_edge_of(mode, key, recording_for is Some) {
                None => Decision::Wait,
                Some(Edge::Start) => Decision::StartTake,
                Some(Edge::Stop) => match recording_for {
                    Some(t) => if mode == Mode::Hold && t < MIN_HOLD_NANOS {
                        Decision::Discard
                    } else {
                        Decision::Transcribe
                    },
                    None => Decision::Wait,
                },
            },
        }
    }
}

/// One turn of the controller: given whether dictation is paused, how long
/// the take in progress has run (in nanoseconds; None when there is none)
/// and the hotkey event that arrived (if any), what to do.
pub fn decide(
    mode: Mode,
    max_take_nanos: u64,
    paused: bool,
    recording_for: Option<u64>,
    event: Option<KeyState>,
) -> (d: Decision)
    ensures
        d == decide_of(mode, max_take_nanos, paused, recording_for, event),
{
    if paused {
        // Any take in progress is discarded; the hotkey is ignored.
        return if recording_for.is_some() {
            Decision::Discard
        } else {
            Decision::Wait
        };
    }
    if let Some(t) = recording_for {
        if t > max_take_nanos {
            return Decision::CutOff;
        }
    }
    let key = match event {
        Some(k) => k,
        None => return Decision::Wait,
    };
    match key_edge(mode, key, recording_for.is_some()) {
        None => Decision::Wait,
        Some(Edge::Start) => Decision::StartTake,
        Some(Edge::Stop) => match recording_for {
            Some(t) => if mode == Mode::Hold && t < MIN_HOLD_NANOS {
                Decision::Discard
            } else {
                Decision::Transcribe
            },
            None => Decision::Wait,
        },
    }
}

/// The longest take, in seconds: `max_recording_secs` bounded to 1 s .. 1 h,
/// so a typo in the config can't let one take grow without limit.
pub open spec fn take_limit_secs(max_recording_secs: u64) -> u64 {
    if max_recording_secs < 1 {
        1
    } else if max_recording_secs > MAX_RECORDING_SECS {
        MAX_RECORDING_SECS
    } else {
        max_recording_secs
    }
}

/// The longest take, in nanoseconds.
pub fn max_take_nanos(max_recording_secs: u64) -> (r: u64)
    ensures
        r == take_limit_secs(max_recording_secs) * 1_000_000_000,
        1_000_000_000 <= r <= MAX_RECORDING_SECS * 1_000_000_000,
{
    let secs = if max_recording_secs < 1 {
        1
    } else if max_recording_secs > MAX_RECORDING_SECS {
        MAX_RECORDING_SECS
    } else {
        max_recording_secs
    };
    secs * 1_000_000_000
}

/// How long the worker waits for a job before freeing the model, in
/// seconds; None when `unload_after_idle_mins` is 0 (never).
pub fn idle_unload_secs(unload_after_idle_mins: u64) -> (r: Option<u64>)
    requires
        unload_after_idle_mins * 60 <= u64::MAX,
    ensures
        unload_after_idle_mins == 0 ==> r is None,
        unload_after_idle_mins > 0 ==> r == Some((unload_after_idle_mins * 60) as u64),
{
    if unload_after_idle_mins == 0 {
        None
    } else {
        Some(unload_after_idle_mins * 60)
    }
}

/// What the worker does with the loaded model before a job.
#[derive(Debug, Clone, Copy, PartialEq, Eq, Structural)]
pub enum EnginePlan {
    /// The wanted model is loaded.
    Keep,
    /// No model is loaded: load the wanted one.
    Load,
    /// Another model is loaded: free it first (keeps peak RAM low on small
    /// machines), then load the wanted one.
    Replace,
}

pub fn engine_plan(loaded: Option<ModelId>, want: ModelId) -> (r: EnginePlan)
    ensures
        loaded is None ==> r == EnginePlan::Load,
        loaded == Some(want) ==> r == EnginePlan::Keep,
        loaded matches Some(m) && m != want ==> r == EnginePlan::Replace,
{
    match loaded {
        None => EnginePlan::Load,
        Some(m) => if m == want {
            EnginePlan::Keep
        } else {
            EnginePlan::Replace
        },
    }
}

/// The text pasted for a transcript, if any: fillers removed when asked,
/// and a line break (or a space) at the end, so the next take starts fresh.
/// Nothing is pasted when nothing is left.
pub open spec fn paste_for(text: Seq<char>, remove: bool, newline: bool) -> Option<Seq<char>> {
    let t = if remove {
        without_fillers(text)
    } else {
        text
    };
    if t.len() == 0 {
        None
    } else {
        Some(t + if newline {
            seq!['\n']
        } else {
            seq![' ']
        })
    }
}

pub open spec fn opt_chars(s: Option<String>) -> Option<Seq<char>> {
    match s {
        Some(s) => Some(s@),
        None => None,
    }
}

/// What to paste for the transcript `text`.
pub fn paste_text(text: &str, remove_fillers_on: bool, newline_after_take: bool) -> (r: Option<
    String,
>)
    ensures
        opt_chars(r) == paste_for(text@, remove_fillers_on, newline_after_take),
{
    let mut t = if remove_fillers_on {
        remove_fillers(text)
    } else {
        String::from_str(text)
    };
    if t.as_str().is_empty() {
        // The take was only "um"s.
        return None;
    }
    proof {
        reveal_strlit("\n");
        reveal_strlit(" ");
    }
    if newline_after_take {
        t.append("\n");
    } else {
        t.append(" ");
    }
    Some(t)
}

} // verus!

verus! {

/// Recording wins over transcribing: while a take is recorded the icon
/// shows Recording, whatever waits to be transcribed.
pub proof fn law_recording_wins(pending: u32)
    ensures
        status_of(true, pending) == Status::Recording,
        pending > 0 ==> status_of(false, pending) == Status::Transcribing,
{
}

/// Every take handed to the worker is counted until the worker finishes it:
/// finishing a take undoes queueing it, and the icon goes back to what the
/// remaining work shows.
pub proof fn law_finished_take_is_uncounted(r: Reporter)
    requires
        r.pending < u32::MAX,
    ensures
        take_done(queued(r)).pending == r.pending,
        !take_done(queued(r)).recording,
        take_done(queued(r)).last == status_of(false, r.pending),
        queued(r).last == Status::Transcribing,
{
}

/// Feeding the updates `ups` (whether a take is recorded, how many wait)
/// to a reporter whose last report was `last`: the status reported last
/// afterwards, and the statuses reported on the way.
pub open spec fn run_updates(last: Status, ups: Seq<(bool, u32)>) -> (Status, Seq<Status>)
    decreases ups.len(),
{
    if ups.len() == 0 {
        (last, Seq::empty())
    } else {
        let (l, reports) = run_updates(last, ups.drop_last());
        let (recording, pending) = ups.last();
        match reported(l, recording, pending) {
            Some(st) => (st, reports.push(st)),
            None => (l, reports),
        }
    }
}

proof fn lemma_run_updates(ups: Seq<(bool, u32)>)
    ensures
        run_updates(Status::Idle, ups).0 == if run_updates(Status::Idle, ups).1.len() == 0 {
            Status::Idle
        } else {
            run_updates(Status::Idle, ups).1.last()
        },
        ups.len() > 0 ==> run_updates(Status::Idle, ups).0 == status_of(ups.last().0, ups.last().1),
        run_updates(Status::Idle, ups).1.len() > 0 ==> run_updates(Status::Idle, ups).1[0]
            != Status::Idle,
        forall|i: int|
            0 <= i < run_updates(Status::Idle, ups).1.len() - 1 ==> #[trigger] run_updates(
                Status::Idle,
                ups,
            ).1[i] != run_updates(Status::Idle, ups).1[i + 1],
    decreases ups.len(),
{
    if ups.len() > 0 {
        lemma_run_updates(ups.drop_last());
        let (l, reports) = run_updates(Status::Idle, ups.drop_last());
        let all = run_updates(Status::Idle, ups).1;
        assert forall|i: int| 0 <= i < all.len() - 1 implies #[trigger] all[i] != all[i + 1] by {
            if i + 1 < reports.len() {
                assert(all[i] == reports[i] && all[i + 1] == reports[i + 1]);
            } else {
                assert(all[i] == reports[i]);
            }
        }
        if reports.len() > 0 {
            assert(all[0] == reports[0]);
        }
    }
}

/// From a fresh reporter, over any sequence of updates, the listener never
/// hears the same status twice in a row, never hears Idle first, and the
/// status it heard last (Idle when none) is the status of the current state.
pub proof fn law_reports_follow_the_state(ups: Seq<(bool, u32)>)
    ensures
        ({
            let (last, reports) = run_updates(Status::Idle, ups);
            &&& forall|i: int| 0 <= i < reports.len() - 1 ==> #[trigger] reports[i] != reports[i + 1]
            &&& reports.len() > 0 ==> reports[0] != Status::Idle
            &&& last == if reports.len() == 0 {
                Status::Idle
            } else {
                reports.last()
            }
            &&& ups.len() > 0 ==> last == status_of(ups.last().0, ups.last().1)
        }),
{
    lemma_run_updates(ups);
}

/// The listener hears of each change once: an update that leaves the
/// status as it was reports nothing.
pub proof fn law_unchanged_status_is_silent(recording: bool, pending: u32)
    ensures
        reported(status_of(recording, pending), recording, pending) is None,
{
}

/// While paused the hotkey is ignored: no take starts or is transcribed,
/// and a take in progress is discarded.
pub proof fn law_pause_ignores_hotkey(
    mode: Mode,
    max_take_nanos: u64,
    recording_for: Option<u64>,
    event: Option<KeyState>,
)
    ensures
        decide_of(mode, max_take_nanos, true, recording_for, event) == if recording_for is Some {
            Decision::Discard
        } else {
            Decision::Wait
        },
{
}

/// In hold mode, a release less than 250 ms after the press throws the
/// take away: such presses are accidental.
pub proof fn law_short_hold_discarded(max_take_nanos: u64, t: u64)
    requires
        t < MIN_HOLD_NANOS,
        t <= max_take_nanos,
    ensures
        decide_of(Mode::Hold, max_take_nanos, false, Some(t), Some(KeyState::Released))
            == Decision::Discard,
{
}

/// A take that has run longer than the limit is stopped and transcribed,
/// whatever the hotkey does.
pub proof fn law_take_cut_at_limit(
    mode: Mode,
    max_take_nanos: u64,
    t: u64,
    event: Option<KeyState>,
)
    requires
        t > max_take_nanos,
    ensures
        decide_of(mode, max_take_nanos, false, Some(t), event) == Decision::CutOff,
{
}

/// A take starts only when none is in progress, and a take in progress is
/// stopped only when there is one.
pub proof fn law_one_take_at_a_time(
    mode: Mode,
    max_take_nanos: u64,
    paused: bool,
    recording_for: Option<u64>,
    event: Option<KeyState>,
)
    ensures
        decide_of(mode, max_take_nanos, paused, recording_for, event) == Decision::StartTake
            ==> recording_for is None,
        ({
            let d = decide_of(mode, max_take_nanos, paused, recording_for, event);
            d == Decision::Discard || d == Decision::CutOff || d == Decision::Transcribe
        }) ==> recording_for is Some,
{
}

/// Every pasted take ends with a line break, or a space when
/// `newline_after_take` is off.
pub proof fn law_paste_ends_take(text: Seq<char>, remove: bool, newline: bool)
    ensures
        paste_for(text, remove, newline) matches Some(p) ==> p.len() > 0 && p.last() == if newline {
            '\n'
        } else {
            ' '
        },
{
}

/// A take that was only fillers pastes nothing when fillers are removed.
pub proof fn law_filler_only_take_pastes_nothing(text: Seq<char>, newline: bool)
    requires
        forall|i: int|
            0 <= i < crate::text::words(text).len() ==> crate::text::is_filler_token(
                #[trigger] crate::text::words(text)[i],
            ),
    ensures
        paste_for(text, true, newline) is None,
{
    crate::text::law_only_fillers_empty(text);
}

/// A take starts only on a press while none is recorded, and stops only
/// while one is recorded: on release in hold mode, on the next press in
/// toggle mode. In particular a release in toggle mode does nothing.
pub proof fn law_what_keys_do(mode: Mode, key: KeyState, recording: bool)
    ensures
        key_edge_of(mode, key, recording) == Some(Edge::Start) <==> (!recording && key
            == KeyState::Pressed),
        key_edge_of(mode, key, recording) == Some(Edge::Stop) <==> (recording && (if mode
            == Mode::Hold {
            key == KeyState::Released
        } else {
            key == KeyState::Pressed
        })),
        mode == Mode::Toggle && key == KeyState::Released ==> key_edge_of(mode, key, recording) is None,
{
}

/// In toggle mode, releasing the hotkey leaves the controller waiting,
/// unless the take in progress is over its time limit.
pub proof fn law_toggle_release_waits(max_take_nanos: u64, recording_for: Option<u64>)
    ensures
        decide_of(Mode::Toggle, max_take_nanos, false, recording_for, Some(KeyState::Released))
            == if recording_for matches Some(t) && t > max_take_nanos {
            Decision::CutOff
        } else {
            Decision::Wait
        },
{
}

/// With filler removal off, the transcript is pasted as it is, followed by
/// a line break (or a space); an empty transcript pastes nothing.
pub proof fn law_paste_keeps_transcript(text: Seq<char>, newline: bool)
    ensures
        text.len() == 0 ==> paste_for(text, false, newline) is None,
        text.len() > 0 ==> paste_for(text, false, newline) == Some(
            text.push(
                if newline {
                    '\n'
                } else {
                    ' '
                },
            ),
        ),
{
    let e = if newline {
        seq!['\n']
    } else {
        seq![' ']
    };
    assert(text + e =~= text.push(e[0]));
}

} // verus!
