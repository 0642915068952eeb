//! The choice of input device and the sample-count arithmetic of captured
//! audio. The samples themselves (floating point) are handled outside this
//! crate.

use vstd::prelude::*;

use crate::chars::str_eq;

verus! {

/// Sample rate the speech models take, in Hz.
pub const TARGET_RATE: u32 = 16_000;

/// Frames kept around the speech on each side: 10 frames of 20 ms.
pub const MARGIN_FRAMES: usize = 10;

/// Samples in a 20 ms frame at `rate` Hz.
pub fn frame_len(rate: u32) -> (r: usize)
    ensures
        r == rate / 50,
{
    (rate / 50) as usize
}

/// The part of a clip of `len` samples, cut in frames of `win` samples,
/// that is kept when frames `first` to `last` are the first and last loud
/// ones: those frames and a margin of `MARGIN_FRAMES` frames on each side
/// (so word onsets are not clipped), within the clip.
pub fn speech_window(first: usize, last: usize, win: usize, len: usize) -> (r: (usize, usize))
    requires
        win > 0,
        first <= last,
        last * win < len,
        (last + 1 + MARGIN_FRAMES) * win <= usize::MAX,
    ensures
        r.0 == (if first >= MARGIN_FRAMES {
            first - MARGIN_FRAMES
        } else {
            0
        }) * win,
        r.1 == if (last + 1 + MARGIN_FRAMES) * win < len {
            (last + 1 + MARGIN_FRAMES) * win
        } else {
            len as int
        },
        r.0 <= r.1 <= len,
{
    let start_frame = first.saturating_sub(MARGIN_FRAMES);
    proof {
        assert(start_frame <= last);
        assert(start_frame * win <= last * win) by (nonlinear_arith)
            requires
                start_frame <= last,
        ;
        assert(last * win <= (last + 1 + MARGIN_FRAMES) * win) by (nonlinear_arith);
        assert(last + 1 + MARGIN_FRAMES <= (last + 1 + MARGIN_FRAMES) * win) by (nonlinear_arith)
            requires
                win > 0,
        ;
    }
    let start = start_frame * win;
    let end_full = (last + 1 + MARGIN_FRAMES) * win;
    let end = if end_full < len {
        end_full
    } else {
        len
    };
    (start, end)
}

/// The part of a clip of `len` samples, cut in frames of `win` samples,
/// that trimming silence keeps, given the first and last loud frames (None
/// when no frame is loud): a clip shorter than two frames is kept whole, a
/// clip with no loud frame is dropped, and otherwise the speech window.
pub fn trim_span(len: usize, win: usize, first: Option<usize>, last: Option<usize>) -> (r: (
    usize,
    usize,
))
    requires
        win > 0,
        win * 2 <= usize::MAX,
        first matches Some(f) && last matches Some(l) ==> f <= l && l * win < len && (l + 1
            + MARGIN_FRAMES) * win <= usize::MAX,
    ensures
        len < win * 2 ==> r == (0usize, len),
        len >= win * 2 && (first is None || last is None) ==> r == (0usize, 0usize),
        (len >= win * 2 && first is Some && last is Some) ==> {
            let (f, l) = (first->0, last->0);
            &&& r.0 == (if f >= MARGIN_FRAMES {
                f - MARGIN_FRAMES
            } else {
                0
            }) * win
            &&& r.1 == if (l + 1 + MARGIN_FRAMES) * win < len {
                (l + 1 + MARGIN_FRAMES) * win
            } else {
                len as int
            }
        },
        r.0 <= r.1 <= len,
{
    if len < win * 2 {
        return (0, len);
    }
    match (first, last) {
        (Some(f), Some(l)) => speech_window(f, l, win, len),
        _ => (0, 0),
    }
}

/// Whether a clip of `len` samples at the target rate holds less than
/// 200 ms of speech, too little to transcribe.
pub fn is_silent(len: usize) -> (r: bool)
    ensures
        r == (len < TARGET_RATE / 5),
{
    len < (TARGET_RATE / 5) as usize
}

/// Whether a device reported under the name `n` (None when it has none) is
/// the one called `wanted`.
pub open spec fn is_named(n: Option<String>, wanted: Seq<char>) -> bool {
    n matches Some(x) && x@ == wanted
}

/// Which of the connected devices, with names `names`, is the one called
/// `wanted`: the first of that name; None when none is connected, and takes
/// then use the system default.
pub fn device_index(names: &Vec<Option<String>>, wanted: &str) -> (r: Option<usize>)
    ensures
        r matches Some(i) ==> i < names@.len() && is_named(names@[i as int], wanted@) && forall|
            j: int,
        | 0 <= j < i ==> !is_named(#[trigger] names@[j], wanted@),
        r is None ==> forall|j: int| 0 <= j < names@.len() ==> !is_named(#[trigger] names@[j], wanted@),
{
    let mut i: usize = 0;
    while i < names.len()
        invariant
            i <= names@.len(),
            forall|j: int| 0 <= j < i ==> !is_named(#[trigger] names@[j], wanted@),
        decreases names.len() - i,
    {
        let found = match &names[i] {
            Some(n) => str_eq(n.as_str(), wanted),
            None => false,
        };
        if found {
            return Some(i);
        }
        i = i + 1;
    }
    None
}

} // verus!
