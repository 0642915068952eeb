//! Downloading and removing speech models: the bookkeeping of a download in
//! progress and how its end is reported.
//!
//! The download itself is `fetch-models.sh`, run as a child process; the
//! process handling lives outside this module.

use vstd::prelude::*;

use crate::chars::{chars_of, string_of, trim_chars, trim_ws};
use crate::stt::{model_dir_name, ModelId};
use crate::text::views;

verus! {

/// The state of a download, guarded by one lock so that `cancel` can never
/// signal a process that has already exited (its pid could belong to
/// something else by then).
#[derive(Debug, Clone, Copy, PartialEq, Eq, Structural)]
pub struct DownloadState {
    pub exited: bool,
    pub cancelled: bool,
}

/// Whether cancelling in state `st` stops the script: only while it runs.
pub open spec fn cancel_signals(st: DownloadState) -> bool {
    !st.exited
}

/// The state after the user cancels.
pub open spec fn after_cancel(st: DownloadState) -> DownloadState {
    DownloadState { exited: st.exited, cancelled: st.cancelled || !st.exited }
}

/// The state after the script exits.
pub open spec fn after_exit(st: DownloadState) -> DownloadState {
    DownloadState { exited: true, cancelled: st.cancelled }
}

impl DownloadState {
    pub fn new() -> (r: DownloadState)
        ensures
            !r.exited,
            !r.cancelled,
    {
        DownloadState { exited: false, cancelled: false }
    }

    /// The user cancelled the download. Returns whether the script's process
    /// group is to be stopped: only while it has not exited.
    pub fn cancel(&mut self) -> (signal: bool)
        ensures
            signal == cancel_signals(*old(self)),
            *final(self) == after_cancel(*old(self)),
    {
        if self.exited {
            return false;
        }
        self.cancelled = true;
        true
    }

    /// The script exited (and was reaped). Returns whether it had been
    /// cancelled.
    pub fn exit(&mut self) -> (cancelled: bool)
        ensures
            *final(self) == after_exit(*old(self)),
            cancelled == old(self).cancelled,
    {
        self.exited = true;
        self.cancelled
    }
}

/// Once the script has exited, cancelling signals nothing (its pid may
/// belong to another process by then), and a download cancelled while it
/// ran is reported as cancelled when it exits.
pub proof fn law_cancel_is_safe(st: DownloadState)
    ensures
        !cancel_signals(after_exit(st)),
        !cancel_signals(after_cancel(after_exit(st))),
        !st.exited ==> after_exit(after_cancel(st)).cancelled,
{
}

/// Outcome of a download, reported once it ends.
#[derive(Debug)]
pub enum Finished {
    Installed,
    Cancelled,
    Failed(String),
}

/// How waiting for the script ended.
pub enum Exit {
    /// The script exited, successfully or not.
    Status { success: bool },
    /// Waiting for it failed, with this error.
    WaitFailed(String),
}

/// Reads `s` from the left: the lines completed so far and the line being read.
pub open spec fn scan_lines(s: Seq<char>) -> (Seq<Seq<char>>, Seq<char>)
    decreases s.len(),
{
    if s.len() == 0 {
        (Seq::empty(), Seq::empty())
    } else {
        let (done, cur) = scan_lines(s.drop_last());
        if s.last() == '\n' {
            (done.push(cur), Seq::empty())
        } else {
            (done, cur.push(s.last()))
        }
    }
}

/// The pieces of `s` between line feeds.
pub open spec fn line_pieces(s: Seq<char>) -> Seq<Seq<char>> {
    let (done, cur) = scan_lines(s);
    done.push(cur)
}

/// The last of `ls` that is not blank, trimmed.
pub open spec fn last_nonblank(ls: Seq<Seq<char>>) -> Option<Seq<char>>
    decreases ls.len(),
{
    if ls.len() == 0 {
        None
    } else if trim_ws(ls.last()).len() > 0 {
        Some(trim_ws(ls.last()))
    } else {
        last_nonblank(ls.drop_last())
    }
}

/// The most useful part of the script's error output for a status line: its
/// last non-blank line, trimmed.
pub open spec fn last_line_of(errors: Seq<char>) -> Seq<char> {
    match last_nonblank(line_pieces(errors)) {
        Some(l) => l,
        None => "download failed"@,
    }
}

/// The outcome reported for a download that ended.
pub open spec fn outcome_of(
    cancelled: bool,
    exit: Exit,
    installed: bool,
    errors: Seq<char>,
) -> Option<Seq<char>> {
    if cancelled {
        None
    } else {
        match exit {
            Exit::Status { success } => if success && installed {
                None
            } else {
                Some(last_line_of(errors))
            },
            Exit::WaitFailed(e) => Some(e@),
        }
    }
}

/// Splits `s` at its line feeds.
fn split_lines(s: &Vec<char>) -> (r: Vec<Vec<char>>)
    ensures
        views(r@) == line_pieces(s@),
{
    let mut done: Vec<Vec<char>> = Vec::new();
    let mut cur: Vec<char> = Vec::new();
    let mut i: usize = 0;
    while i < s.len()
        invariant
            i <= s.len(),
            (views(done@), cur@) == scan_lines(s@.take(i as int)),
        decreases s.len() - i,
    {
        let c = s[i];
        assert(s@.take(i + 1).drop_last() =~= s@.take(i as int));
        if c == '\n' {
            let ghost old_done = done@;
            let ghost line = cur@;
            done.push(cur);
            cur = Vec::new();
            assert(views(done@) =~= views(old_done).push(line));
        } else {
            cur.push(c);
        }
        i = i + 1;
    }
    assert(s@.take(s.len() as int) =~= s@);
    let ghost old_done = done@;
    let ghost line = cur@;
    done.push(cur);
    assert(views(done@) =~= views(old_done).push(line));
    done
}

/// The most useful part of the script's error output for a status line.
pub fn last_line(errors: &str) -> (r: String)
    ensures
        r@ == last_line_of(errors@),
{
    let chars = chars_of(errors);
    let lines = split_lines(&chars);
    let ghost g = views(lines@);
    let mut n = lines.len();
    assert(g.take(n as int) =~= g);
    while n > 0
        invariant
            n <= lines.len(),
            g == views(lines@),
            g == line_pieces(errors@),
            last_nonblank(g.take(n as int)) == last_nonblank(g),
        decreases n,
    {
        assert(g.take(n as int).drop_last() =~= g.take(n - 1));
        assert(g.take(n as int).last() == lines@[n - 1]@);
        let t = trim_chars(&lines[n - 1]);
        if t.len() > 0 {
            return string_of(&t);
        }
        n = n - 1;
    }
    String::from_str("download failed")
}

/// How a download that ended is reported: a cancelled one as cancelled,
/// one whose script succeeded and left the model installed as installed,
/// any other as failed, with the script's last error line or why waiting
/// for it failed.
pub fn finished(cancelled: bool, exit: Exit, installed: bool, errors: &str) -> (r: Finished)
    ensures
        cancelled ==> r is Cancelled,
        !cancelled && outcome_of(cancelled, exit, installed, errors@) is None ==> r is Installed,
        r matches Finished::Failed(m) ==> !cancelled && outcome_of(
            cancelled,
            exit,
            installed,
            errors@,
        ) == Some(m@),
        !cancelled && outcome_of(cancelled, exit, installed, errors@) is Some ==> r is Failed,
{
    if cancelled {
        return Finished::Cancelled;
    }
    match exit {
        Exit::Status { success } => if success && installed {
            Finished::Installed
        } else {
            Finished::Failed(last_line(errors))
        },
        Exit::WaitFailed(e) => Finished::Failed(e),
    }
}

/// Whether the entry `name` of the models folder belongs to `model`: its
/// folder, or a partial download of it.
pub fn belongs_to(name: &str, model: ModelId) -> (r: bool)
    ensures
        r == model_dir_name(model).is_prefix_of(name@),
{
    let n = chars_of(name);
    let p = chars_of(model.dir_name());
    if p.len() > n.len() {
        return false;
    }
    let mut i: usize = 0;
    while i < p.len()
        invariant
            p.len() <= n.len(),
            p@ == model_dir_name(model),
            n@ == name@,
            i <= p.len(),
            forall|j: int| 0 <= j < i ==> p@[j] == n@[j],
        decreases p.len() - i,
    {
        if p[i] != n[i] {
            return false;
        }
        i = i + 1;
    }
    true
}

} // verus!
