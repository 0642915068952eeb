//! Post-processing of transcripts before they are pasted.
//!
//! A transcript is split into words at whitespace. Hesitation sounds ("um",
//! "uh", "erm", ...) are dropped; a sentence end that a dropped filler carried
//! ("...said uh.") moves onto the previous word, and a filler that started a
//! sentence hands its capital letter on to the next word. The kept words are
//! joined by single spaces.

use vstd::prelude::*;

use crate::chars::{
    ascii_upper, chars_of, is_alphanumeric, is_whitespace, string_of, to_uppercase,
    unicode_alphanumeric, unicode_uppercase, unicode_whitespace,
};

verus! {

/// The character sequences of a sequence of character vectors.
pub open spec fn views(v: Seq<Vec<char>>) -> Seq<Seq<char>> {
    Seq::new(v.len(), |i: int| v[i]@)
}

pub open spec fn is_sentence_end(c: char) -> bool {
    c == '.' || c == '?' || c == '!'
}

pub open spec fn is_clause_mark(c: char) -> bool {
    c == ',' || c == ';' || c == ':'
}

pub open spec fn ends_sentence(w: Seq<char>) -> bool {
    w.len() > 0 && is_sentence_end(w.last())
}

/// Reads `s` from the left: the words completed so far and the word being read.
pub open spec fn scan_words(s: Seq<char>) -> (Seq<Seq<char>>, Seq<char>)
    decreases s.len(),
{
    if s.len() == 0 {
        (Seq::empty(), Seq::empty())
    } else {
        let (done, cur) = scan_words(s.drop_last());
        if unicode_whitespace(s.last()) {
            if cur.len() > 0 {
                (done.push(cur), Seq::empty())
            } else {
                (done, Seq::empty())
            }
        } else {
            (done, cur.push(s.last()))
        }
    }
}

/// The maximal runs of non-whitespace characters of `s`, in order
/// (what `str::split_whitespace` yields).
pub open spec fn words(s: Seq<char>) -> Seq<Seq<char>> {
    let (done, cur) = scan_words(s);
    if cur.len() > 0 {
        done.push(cur)
    } else {
        done
    }
}

/// Index of the first letter or digit of `t` at or after `i`, or `t.len()`.
pub open spec fn first_alnum_from(t: Seq<char>, i: int) -> int
    decreases t.len() - i,
{
    if i >= t.len() {
        t.len() as int
    } else if unicode_alphanumeric(t[i]) {
        i
    } else {
        first_alnum_from(t, i + 1)
    }
}

/// Length of the first `n` characters of `t` without the non-alphanumeric
/// characters at their end.
pub open spec fn alnum_end_at(t: Seq<char>, n: int) -> int
    decreases n,
{
    if n <= 0 {
        0
    } else if unicode_alphanumeric(t[n - 1]) {
        n
    } else {
        alnum_end_at(t, n - 1)
    }
}

/// Length of `t` without its trailing non-alphanumeric characters.
pub open spec fn alnum_end(t: Seq<char>) -> int {
    alnum_end_at(t, t.len() as int)
}

/// `t` with the non-alphanumeric characters at both ends removed.
pub open spec fn word_core(t: Seq<char>) -> Seq<char> {
    if alnum_end(t) == 0 {
        Seq::empty()
    } else {
        t.subrange(first_alnum_from(t, 0), alnum_end(t))
    }
}

/// The first sentence-ending mark of `t` at or after `i`.
pub open spec fn first_sentence_end_from(t: Seq<char>, i: int) -> Option<char>
    decreases t.len() - i,
{
    if i >= t.len() {
        None
    } else if is_sentence_end(t[i]) {
        Some(t[i])
    } else {
        first_sentence_end_from(t, i + 1)
    }
}

/// The first sentence-ending mark among the punctuation after the last
/// letter or digit of `t`.
pub open spec fn carried_end(t: Seq<char>) -> Option<char> {
    first_sentence_end_from(t, alnum_end(t))
}

/// Code of `c` with ASCII uppercase letters lowered.
pub open spec fn ascii_lower_code(c: char) -> int {
    if 'A' <= c && c <= 'Z' {
        (c as int) + 32
    } else {
        c as int
    }
}

/// ASCII case-insensitive equality (`str::eq_ignore_ascii_case`).
pub open spec fn eq_ignore_ascii_case(a: Seq<char>, b: Seq<char>) -> bool {
    a.len() == b.len() && forall|i: int|
        0 <= i < a.len() ==> ascii_lower_code(#[trigger] a[i]) == ascii_lower_code(b[i])
}

/// Hesitation sounds that never carry meaning in dictated text. Words people
/// use on purpose ("ah", "hmm", "like") are deliberately not included.
pub open spec fn fillers() -> Seq<Seq<char>> {
    seq![
        seq!['u', 'm'],
        seq!['u', 'm', 'm'],
        seq!['u', 'h'],
        seq!['u', 'h', 'h'],
        seq!['u', 'h', 'm'],
        seq!['e', 'r', 'm'],
    ]
}

pub open spec fn is_filler(w: Seq<char>) -> bool {
    exists|k: int| 0 <= k < fillers().len() && eq_ignore_ascii_case(w, #[trigger] fillers()[k])
}

/// Whether the word `t` is a filler once its surrounding punctuation is ignored.
pub open spec fn is_filler_token(t: Seq<char>) -> bool {
    is_filler(word_core(t))
}

/// `w` with its first character in uppercase.
pub open spec fn capitalize(w: Seq<char>) -> Seq<char> {
    if w.len() == 0 {
        w
    } else {
        unicode_uppercase(w[0]) + w.drop_first()
    }
}

/// `w` without the commas, semicolons and colons at its end.
pub open spec fn trim_clause_marks(w: Seq<char>) -> Seq<char>
    decreases w.len(),
{
    if w.len() > 0 && is_clause_mark(w.last()) {
        trim_clause_marks(w.drop_last())
    } else {
        w
    }
}

/// The word before a dropped filler that carried the sentence end `e`.
pub open spec fn close_sentence(prev: Seq<char>, e: char) -> Seq<char> {
    let t = trim_clause_marks(prev);
    if ends_sentence(t) {
        t
    } else {
        t.push(e)
    }
}

/// State while reading the words: the kept words, whether the next kept
/// word starts a sentence, and whether it is to be capitalized.
pub type Tidy = (Seq<Seq<char>>, bool, bool);

pub open spec fn tidy_start() -> Tidy {
    (Seq::empty(), true, false)
}

/// Reads one word.
pub open spec fn tidy_step(st: Tidy, tok: Seq<char>) -> Tidy {
    let (out, sentence_start, capitalize_next) = st;
    if is_filler_token(tok) {
        let (out2, start2) = match carried_end(tok) {
            Some(e) => (
                if out.len() > 0 {
                    out.update(out.len() - 1, close_sentence(out.last(), e))
                } else {
                    out
                },
                true,
            ),
            None => (out, sentence_start),
        };
        (out2, start2, capitalize_next || start2)
    } else {
        let w = if capitalize_next {
            capitalize(tok)
        } else {
            tok
        };
        (out.push(w), ends_sentence(w), false)
    }
}

pub open spec fn tidy_words(toks: Seq<Seq<char>>) -> Tidy
    decreases toks.len(),
{
    if toks.len() == 0 {
        tidy_start()
    } else {
        tidy_step(tidy_words(toks.drop_last()), toks.last())
    }
}

/// The words `ws` joined by single spaces.
pub open spec fn join_words(ws: Seq<Seq<char>>) -> Seq<char>
    decreases ws.len(),
{
    if ws.len() == 0 {
        Seq::empty()
    } else if ws.len() == 1 {
        ws[0]
    } else {
        join_words(ws.drop_last()) + seq![' '] + ws.last()
    }
}

/// The transcript `s` with its filler words removed.
pub open spec fn without_fillers(s: Seq<char>) -> Seq<char> {
    join_words(tidy_words(words(s)).0)
}

/// Splits `s` into its words.
fn split_words(s: &Vec<char>) -> (r: Vec<Vec<char>>)
    ensures
        views(r@) == words(s@),
{
    let mut done: Vec<Vec<char>> = Vec::new();
    let mut cur: Vec<char> = Vec::new();
    let mut i: usize = 0;
    while i < s.len()
        invariant
            i <= s.len(),
            (views(done@), cur@) == scan_words(s@.take(i as int)),
        decreases s.len() - i,
    {
        let c = s[i];
        assert(s@.take(i + 1).drop_last() =~= s@.take(i as int));
        let ghost old_done = done@;
        if is_whitespace(c) {
            if cur.len() > 0 {
                done.push(cur);
                cur = Vec::new();
                assert(views(done@) =~= views(old_done).push(
                    scan_words(s@.take(i as int)).1,
                ));
            }
        } else {
            cur.push(c);
        }
        i = i + 1;
    }
    assert(s@.take(s.len() as int) =~= s@);
    if cur.len() > 0 {
        let ghost old_done = done@;
        let ghost last = cur@;
        done.push(cur);
        assert(views(done@) =~= views(old_done).push(last));
    }
    done
}

/// `alnum_end` of `t`.
fn alnum_end_exec(t: &Vec<char>) -> (r: usize)
    ensures
        r == alnum_end(t@),
        r <= t.len(),
        r > 0 ==> unicode_alphanumeric(t@[r - 1]),
{
    let mut n = t.len();
    while n > 0 && !is_alphanumeric(t[n - 1])
        invariant
            n <= t.len(),
            alnum_end_at(t@, n as int) == alnum_end(t@),
        decreases n,
    {
        n = n - 1;
    }
    n
}

/// `first_alnum_from(t, 0)`, where `t[end - 1]` is alphanumeric.
fn first_alnum_exec(t: &Vec<char>, end: usize) -> (r: usize)
    requires
        0 < end <= t.len(),
        unicode_alphanumeric(t@[end - 1]),
    ensures
        r == first_alnum_from(t@, 0),
        r < end,
{
    let mut i: usize = 0;
    while !is_alphanumeric(t[i])
        invariant
            i < end,
            end <= t.len(),
            unicode_alphanumeric(t@[end - 1]),
            first_alnum_from(t@, i as int) == first_alnum_from(t@, 0),
        decreases end - i,
    {
        i = i + 1;
    }
    i
}

/// `ascii_lower_code(c)`.
fn ascii_lower(c: char) -> (r: u32)
    ensures
        r == ascii_lower_code(c),
{
    if 'A' <= c && c <= 'Z' {
        c as u32 + 32
    } else {
        c as u32
    }
}

/// The filler words.
fn filler_list() -> (r: Vec<Vec<char>>)
    ensures
        views(r@) == fillers(),
{
    let mut r: Vec<Vec<char>> = Vec::new();
    r.push(vec!['u', 'm']);
    r.push(vec!['u', 'm', 'm']);
    r.push(vec!['u', 'h']);
    r.push(vec!['u', 'h', 'h']);
    r.push(vec!['u', 'h', 'm']);
    r.push(vec!['e', 'r', 'm']);
    assert(views(r@) =~= fillers());
    r
}

/// Whether `t[start..end]` equals `f` ignoring ASCII case.
fn matches_ignoring_case(t: &Vec<char>, start: usize, end: usize, f: &Vec<char>) -> (b: bool)
    requires
        start <= end <= t.len(),
    ensures
        b == eq_ignore_ascii_case(t@.subrange(start as int, end as int), f@),
{
    let ghost w = t@.subrange(start as int, end as int);
    if end - start != f.len() {
        return false;
    }
    let mut j: usize = 0;
    while j < f.len()
        invariant
            start <= end <= t.len(),
            end - start == f.len(),
            w == t@.subrange(start as int, end as int),
            j <= f.len(),
            forall|k: int| 0 <= k < j ==> ascii_lower_code(#[trigger] w[k]) == ascii_lower_code(f@[k]),
        decreases f.len() - j,
    {
        if ascii_lower(t[start + j]) != ascii_lower(f[j]) {
            assert(ascii_lower_code(w[j as int]) != ascii_lower_code(f@[j as int]));
            return false;
        }
        j = j + 1;
    }
    true
}

/// Whether `t[start..end]` is a filler.
fn is_filler_range(t: &Vec<char>, start: usize, end: usize) -> (b: bool)
    requires
        start <= end <= t.len(),
    ensures
        b == is_filler(t@.subrange(start as int, end as int)),
{
    let ghost w = t@.subrange(start as int, end as int);
    let list = filler_list();
    let mut k: usize = 0;
    while k < list.len()
        invariant
            start <= end <= t.len(),
            w == t@.subrange(start as int, end as int),
            views(list@) == fillers(),
            k <= list.len(),
            forall|m: int| 0 <= m < k ==> !eq_ignore_ascii_case(w, #[trigger] fillers()[m]),
        decreases list.len() - k,
    {
        assert(views(list@)[k as int] == list@[k as int]@);
        if matches_ignoring_case(t, start, end, &list[k]) {
            assert(eq_ignore_ascii_case(w, fillers()[k as int]));
            return true;
        }
        k = k + 1;
    }
    false
}

/// Whether the word `t` is a filler, and where the letters and digits of `t` end.
fn filler_token(t: &Vec<char>) -> (r: (bool, usize))
    ensures
        r.0 == is_filler_token(t@),
        r.1 == alnum_end(t@),
        r.1 <= t.len(),
{
    let end = alnum_end_exec(t);
    if end == 0 {
        assert(!eq_ignore_ascii_case(Seq::<char>::empty(), fillers()[0]));
        assert forall|k: int| 0 <= k < fillers().len() implies !eq_ignore_ascii_case(
            Seq::<char>::empty(),
            #[trigger] fillers()[k],
        ) by {
            assert(fillers()[k].len() > 0);
        }
        (false, end)
    } else {
        let start = first_alnum_exec(t, end);
        (is_filler_range(t, start, end), end)
    }
}

/// `first_sentence_end_from(t, from)`.
fn first_sentence_end(t: &Vec<char>, from: usize) -> (r: Option<char>)
    requires
        from <= t.len(),
    ensures
        r == first_sentence_end_from(t@, from as int),
{
    let mut i = from;
    while i < t.len()
        invariant
            from <= i <= t.len(),
            first_sentence_end_from(t@, i as int) == first_sentence_end_from(t@, from as int),
        decreases t.len() - i,
    {
        let c = t[i];
        if c == '.' || c == '?' || c == '!' {
            return Some(c);
        }
        i = i + 1;
    }
    None
}

/// Whether `w` ends with a sentence-ending mark.
fn ends_sentence_exec(w: &Vec<char>) -> (b: bool)
    ensures
        b == ends_sentence(w@),
{
    if w.len() == 0 {
        false
    } else {
        let c = w[w.len() - 1];
        c == '.' || c == '?' || c == '!'
    }
}

fn is_clause_mark_exec(c: char) -> (b: bool)
    ensures
        b == is_clause_mark(c),
{
    c == ',' || c == ';' || c == ':'
}

/// `close_sentence(prev, e)`.
fn close_sentence_exec(prev: Vec<char>, e: char) -> (r: Vec<char>)
    ensures
        r@ == close_sentence(prev@, e),
{
    let mut w = prev;
    while w.len() > 0 && is_clause_mark_exec(w[w.len() - 1])
        invariant
            trim_clause_marks(w@) == trim_clause_marks(prev@),
        decreases w.len(),
    {
        let ghost before = w@;
        w.pop();
        assert(w@ =~= before.drop_last());
    }
    if !ends_sentence_exec(&w) {
        w.push(e);
    }
    w
}

/// `capitalize(w)`.
fn capitalize_exec(w: &Vec<char>) -> (r: Vec<char>)
    ensures
        r@ == capitalize(w@),
{
    if w.len() == 0 {
        return Vec::new();
    }
    let mut r = to_uppercase(w[0]);
    let ghost upper = r@;
    let mut i: usize = 1;
    while i < w.len()
        invariant
            1 <= i <= w.len(),
            r@ == upper + w@.subrange(1, i as int),
        decreases w.len() - i,
    {
        r.push(w[i]);
        i = i + 1;
        assert(r@ =~= upper + w@.subrange(1, i as int));
    }
    assert(w@.subrange(1, w.len() as int) =~= w@.drop_first());
    r
}

/// A copy of `w`.
fn copy_chars(w: &Vec<char>) -> (r: Vec<char>)
    ensures
        r@ == w@,
{
    let mut r: Vec<char> = Vec::new();
    let mut i: usize = 0;
    while i < w.len()
        invariant
            i <= w.len(),
            r@ == w@.take(i as int),
        decreases w.len() - i,
    {
        r.push(w[i]);
        i = i + 1;
        assert(r@ =~= w@.take(i as int));
    }
    assert(w@.take(w.len() as int) =~= w@);
    r
}

/// The words `ws` joined by single spaces.
fn join_exec(ws: &Vec<Vec<char>>) -> (r: Vec<char>)
    ensures
        r@ == join_words(views(ws@)),
{
    let ghost g = views(ws@);
    let mut r: Vec<char> = Vec::new();
    let mut i: usize = 0;
    while i < ws.len()
        invariant
            i <= ws.len(),
            g == views(ws@),
            r@ == join_words(g.take(i as int)),
        decreases ws.len() - i,
    {
        let ghost before = r@;
        assert(g.take(i + 1).drop_last() =~= g.take(i as int));
        assert(g.take(i + 1).last() == ws@[i as int]@);
        if i > 0 {
            r.push(' ');
        }
        let w = &ws[i];
        let mut j: usize = 0;
        let ghost mid = r@;
        while j < w.len()
            invariant
                j <= w.len(),
                r@ == mid + w@.take(j as int),
            decreases w.len() - j,
        {
            r.push(w[j]);
            j = j + 1;
            assert(r@ =~= mid + w@.take(j as int));
        }
        assert(w@.take(w.len() as int) =~= w@);
        if i == 0 {
            assert(r@ =~= join_words(g.take(1)));
        } else {
            assert(r@ =~= before + seq![' '] + w@);
        }
        i = i + 1;
    }
    assert(g.take(ws.len() as int) =~= g);
    r
}

/// Removes filler words, keeping sentence punctuation and capitalization
/// intact: "Um, so I think uh we should." -> "So I think we should."
pub fn remove_fillers(text: &str) -> (r: String)
    ensures
        r@ == without_fillers(text@),
{
    let chars = chars_of(text);
    let toks = split_words(&chars);
    let ghost g = views(toks@);
    let mut out: Vec<Vec<char>> = Vec::new();
    // True when the next kept word starts a sentence.
    let mut sentence_start = true;
    let mut capitalize_next = false;
    let mut i: usize = 0;
    while i < toks.len()
        invariant
            i <= toks.len(),
            g == views(toks@),
            g == words(text@),
            (views(out@), sentence_start, capitalize_next) == tidy_words(g.take(i as int)),
        decreases toks.len() - i,
    {
        assert(g.take(i + 1).drop_last() =~= g.take(i as int));
        assert(g.take(i + 1).last() == toks@[i as int]@);
        let token = &toks[i];
        let (filler, end) = filler_token(token);
        if filler {
            // Keep sentence-ending punctuation the filler carried ("...said uh.").
            match first_sentence_end(token, end) {
                Some(e) => {
                    if out.len() > 0 {
                        let ghost before = views(out@);
                        let prev = out.pop().unwrap();
                        assert(prev@ == before.last());
                        let fixed = close_sentence_exec(prev, e);
                        out.push(fixed);
                        assert(views(out@) =~= before.update(
                            before.len() - 1,
                            close_sentence(before.last(), e),
                        ));
                    }
                    sentence_start = true;
                },
                None => {},
            }
            // A capitalized filler that started a sentence hands the capital on.
            if sentence_start {
                capitalize_next = true;
            }
        } else {
            let word = if capitalize_next {
                capitalize_exec(token)
            } else {
                copy_chars(token)
            };
            capitalize_next = false;
            sentence_start = ends_sentence_exec(&word);
            let ghost before = views(out@);
            let ghost w = word@;
            out.push(word);
            assert(views(out@) =~= before.push(w));
        }
        i = i + 1;
    }
    assert(g.take(toks.len() as int) =~= g);
    let joined = join_exec(&out);
    string_of(&joined)
}

} // verus!

verus! {

/// The words of `toks` that are not fillers, in order.
pub open spec fn kept_words(toks: Seq<Seq<char>>) -> Seq<Seq<char>>
    decreases toks.len(),
{
    if toks.len() == 0 {
        Seq::empty()
    } else if is_filler_token(toks.last()) {
        kept_words(toks.drop_last())
    } else {
        kept_words(toks.drop_last()).push(toks.last())
    }
}

/// `w` is `base`, or `base` closed by the sentence end that a dropped
/// filler carried.
pub open spec fn closes(base: Seq<char>, w: Seq<char>) -> bool {
    w == base || exists|e: char| is_sentence_end(e) && w == #[trigger] close_sentence(base, e)
}

/// `w` is the word `t`, possibly with a capital first letter handed on by a
/// dropped filler, and possibly closed by a sentence end that a dropped
/// filler carried.
pub open spec fn stems_from(w: Seq<char>, t: Seq<char>) -> bool {
    closes(t, w) || closes(capitalize(t), w)
}

proof fn lemma_sentence_end_found(t: Seq<char>, i: int)
    ensures
        first_sentence_end_from(t, i) matches Some(e) ==> is_sentence_end(e),
    decreases t.len() - i,
{
    if i < t.len() && !is_sentence_end(t[i]) {
        lemma_sentence_end_found(t, i + 1);
    }
}

/// A word that already ends a sentence stays as it is.
proof fn lemma_close_closed(x: Seq<char>, e1: char, e2: char)
    requires
        is_sentence_end(e1),
    ensures
        close_sentence(close_sentence(x, e1), e2) == close_sentence(x, e1),
{
    let y = close_sentence(x, e1);
    assert(ends_sentence(y));
    assert(trim_clause_marks(y) == y);
}

proof fn lemma_closes_again(base: Seq<char>, w: Seq<char>, e: char)
    requires
        closes(base, w),
        is_sentence_end(e),
    ensures
        closes(base, close_sentence(w, e)),
{
    if w == base {
        assert(close_sentence(w, e) == close_sentence(base, e));
    } else {
        let e1 = choose|e1: char| is_sentence_end(e1) && w == #[trigger] close_sentence(base, e1);
        lemma_close_closed(base, e1, e);
    }
}

proof fn lemma_tidy_kept_words(toks: Seq<Seq<char>>)
    ensures
        tidy_words(toks).0.len() == kept_words(toks).len(),
        forall|j: int|
            0 <= j < kept_words(toks).len() ==> stems_from(
                #[trigger] tidy_words(toks).0[j],
                kept_words(toks)[j],
            ),
    decreases toks.len(),
{
    if toks.len() > 0 {
        let rest = toks.drop_last();
        let tok = toks.last();
        lemma_tidy_kept_words(rest);
        let (out, sentence_start, capitalize_next) = tidy_words(rest);
        let kept = kept_words(rest);
        if is_filler_token(tok) {
            match carried_end(tok) {
                Some(e) => {
                    lemma_sentence_end_found(tok, alnum_end(tok));
                    if out.len() > 0 {
                        let last = out.len() - 1;
                        let t = kept[last];
                        if closes(t, out[last]) {
                            lemma_closes_again(t, out[last], e);
                        } else {
                            lemma_closes_again(capitalize(t), out[last], e);
                        }
                        assert forall|j: int| 0 <= j < kept.len() implies stems_from(
                            #[trigger] tidy_words(toks).0[j],
                            kept[j],
                        ) by {
                            if j != last {
                                assert(tidy_words(toks).0[j] == out[j]);
                            }
                        }
                    }
                },
                None => {},
            }
        } else {
            let w = if capitalize_next {
                capitalize(tok)
            } else {
                tok
            };
            assert(tidy_words(toks).0 == out.push(w));
            assert(kept_words(toks) == kept.push(tok));
            assert(closes(w, w));
            assert forall|j: int| 0 <= j < kept.len() + 1 implies stems_from(
                #[trigger] tidy_words(toks).0[j],
                kept_words(toks)[j],
            ) by {
                if j < kept.len() {
                    assert(tidy_words(toks).0[j] == out[j]);
                    assert(kept_words(toks)[j] == kept[j]);
                }
            }
        }
    }
}

proof fn lemma_kept_words_not_fillers(toks: Seq<Seq<char>>)
    ensures
        forall|j: int| 0 <= j < kept_words(toks).len() ==> !is_filler_token(#[trigger] kept_words(toks)[j]),
    decreases toks.len(),
{
    if toks.len() > 0 {
        let rest = toks.drop_last();
        lemma_kept_words_not_fillers(rest);
        if !is_filler_token(toks.last()) {
            assert forall|j: int| 0 <= j < kept_words(toks).len() implies !is_filler_token(
                #[trigger] kept_words(toks)[j],
            ) by {
                if j < kept_words(rest).len() {
                    assert(kept_words(toks)[j] == kept_words(rest)[j]);
                }
            }
        }
    }
}

proof fn lemma_tidy_no_fillers(toks: Seq<Seq<char>>)
    requires
        forall|i: int| 0 <= i < toks.len() ==> !is_filler_token(#[trigger] toks[i]),
    ensures
        tidy_words(toks).0 == toks,
        !tidy_words(toks).2,
    decreases toks.len(),
{
    if toks.len() > 0 {
        let rest = toks.drop_last();
        assert forall|i: int| 0 <= i < rest.len() implies !is_filler_token(#[trigger] rest[i]) by {
            assert(rest[i] == toks[i]);
        }
        lemma_tidy_no_fillers(rest);
        assert(!is_filler_token(toks[toks.len() - 1]));
        assert(rest.push(toks.last()) =~= toks);
    }
}

proof fn lemma_tidy_all_fillers(toks: Seq<Seq<char>>)
    requires
        forall|i: int| 0 <= i < toks.len() ==> is_filler_token(#[trigger] toks[i]),
    ensures
        tidy_words(toks).0 == Seq::<Seq<char>>::empty(),
    decreases toks.len(),
{
    if toks.len() > 0 {
        let rest = toks.drop_last();
        assert forall|i: int| 0 <= i < rest.len() implies is_filler_token(#[trigger] rest[i]) by {
            assert(rest[i] == toks[i]);
        }
        lemma_tidy_all_fillers(rest);
        assert(is_filler_token(toks[toks.len() - 1]));
    }
}

/// Words that are not fillers are left alone: a transcript without filler
/// words comes back as its words joined by single spaces.
pub proof fn law_real_words_kept(s: Seq<char>)
    requires
        forall|i: int| 0 <= i < words(s).len() ==> !is_filler_token(#[trigger] words(s)[i]),
    ensures
        without_fillers(s) == join_words(words(s)),
{
    lemma_tidy_no_fillers(words(s));
}

/// A transcript made only of fillers becomes empty.
pub proof fn law_only_fillers_empty(s: Seq<char>)
    requires
        forall|i: int| 0 <= i < words(s).len() ==> is_filler_token(#[trigger] words(s)[i]),
    ensures
        without_fillers(s) == Seq::<char>::empty(),
{
    lemma_tidy_all_fillers(words(s));
}

/// Fillers are dropped and every other word is kept, in order: the j-th
/// word of the result is the j-th word of the transcript that is not a
/// filler, changed at most by a capital on its first letter and by a
/// sentence end that a dropped filler carried.
pub proof fn law_fillers_dropped_words_kept(s: Seq<char>)
    ensures
        tidy_words(words(s)).0.len() == kept_words(words(s)).len(),
        forall|j: int|
            0 <= j < kept_words(words(s)).len() ==> !is_filler_token(
                #[trigger] kept_words(words(s))[j],
            ) && stems_from(tidy_words(words(s)).0[j], kept_words(words(s))[j]),
{
    lemma_tidy_kept_words(words(s));
    lemma_kept_words_not_fillers(words(s));
}

} // verus!

verus! {

/// No character of `w` is whitespace.
pub open spec fn no_whitespace(w: Seq<char>) -> bool {
    forall|i: int| 0 <= i < w.len() ==> !unicode_whitespace(#[trigger] w[i])
}

/// Every word is non-empty and has no whitespace in it.
pub open spec fn proper_words(ws: Seq<Seq<char>>) -> bool {
    forall|i: int| 0 <= i < ws.len() ==> #[trigger] ws[i].len() > 0 && no_whitespace(ws[i])
}

proof fn lemma_scan_proper(s: Seq<char>)
    ensures
        proper_words(scan_words(s).0),
        no_whitespace(scan_words(s).1),
    decreases s.len(),
{
    if s.len() > 0 {
        lemma_scan_proper(s.drop_last());
        let (done, cur) = scan_words(s.drop_last());
        if unicode_whitespace(s.last()) {
            if cur.len() > 0 {
                let d2 = done.push(cur);
                assert forall|i: int| 0 <= i < d2.len() implies #[trigger] d2[i].len() > 0
                    && no_whitespace(d2[i]) by {
                    if i < done.len() {
                        assert(d2[i] == done[i]);
                    }
                }
            }
        } else {
            let c2 = cur.push(s.last());
            assert forall|i: int| 0 <= i < c2.len() implies !unicode_whitespace(#[trigger] c2[i]) by {
                if i < cur.len() {
                    assert(c2[i] == cur[i]);
                }
            }
        }
    }
}

proof fn lemma_words_proper(s: Seq<char>)
    ensures
        proper_words(words(s)),
{
    lemma_scan_proper(s);
    let (done, cur) = scan_words(s);
    if cur.len() > 0 {
        let w = done.push(cur);
        assert forall|i: int| 0 <= i < w.len() implies #[trigger] w[i].len() > 0 && no_whitespace(
            w[i],
        ) by {
            if i < done.len() {
                assert(w[i] == done[i]);
            }
        }
    }
}

/// Reading a word without whitespace extends the word being read.
proof fn lemma_scan_append(p: Seq<char>, w: Seq<char>)
    requires
        no_whitespace(w),
    ensures
        scan_words(p + w) == (scan_words(p).0, scan_words(p).1 + w),
    decreases w.len(),
{
    if w.len() == 0 {
        assert(p + w =~= p);
        assert(scan_words(p).1 + w =~= scan_words(p).1);
    } else {
        let v = w.drop_last();
        assert(no_whitespace(v)) by {
            assert forall|i: int| 0 <= i < v.len() implies !unicode_whitespace(#[trigger] v[i]) by {
                assert(v[i] == w[i]);
            }
        }
        lemma_scan_append(p, v);
        assert((p + w).drop_last() =~= p + v);
        assert((p + w).last() == w[w.len() - 1]);
        assert(scan_words(p).1 + v.push(w.last()) =~= scan_words(p).1 + w);
        assert((scan_words(p).1 + v).push(w.last()) =~= scan_words(p).1 + w);
    }
}

/// Splitting words joined by single spaces gives the words back.
proof fn lemma_words_of_join(ws: Seq<Seq<char>>)
    requires
        proper_words(ws),
    ensures
        words(join_words(ws)) == ws,
    decreases ws.len(),
{
    if ws.len() == 0 {
        assert(words(Seq::<char>::empty()) =~= ws);
    } else if ws.len() == 1 {
        let w = ws[0];
        assert(w.len() > 0 && no_whitespace(w));
        lemma_scan_append(Seq::empty(), w);
        assert(Seq::<char>::empty() + w =~= w);
        assert(Seq::<char>::empty() + w =~= w);
        assert(words(w) =~= seq![w]);
        assert(ws =~= seq![w]);
    } else {
        let rest = ws.drop_last();
        let w = ws.last();
        assert(proper_words(rest)) by {
            assert forall|i: int| 0 <= i < rest.len() implies #[trigger] rest[i].len() > 0
                && no_whitespace(rest[i]) by {
                assert(rest[i] == ws[i]);
            }
        }
        assert(w.len() > 0 && no_whitespace(w));
        lemma_words_of_join(rest);
        let j = join_words(rest);
        let js = j.push(' ');
        assert(unicode_whitespace(' '));
        assert(js.drop_last() =~= j);
        assert(scan_words(js).0 == words(j));
        assert(scan_words(js).1 == Seq::<char>::empty());
        lemma_scan_append(js, w);
        assert(join_words(ws) =~= js + w);
        assert(Seq::<char>::empty() + w =~= w);
        assert(words(join_words(ws)) =~= rest.push(w));
        assert(rest.push(w) =~= ws);
    }
}


proof fn lemma_alnum_end_bounds(t: Seq<char>, n: int)
    requires
        0 <= n <= t.len(),
    ensures
        0 <= alnum_end_at(t, n) <= n,
        alnum_end_at(t, n) > 0 ==> unicode_alphanumeric(t[alnum_end_at(t, n) - 1]),
    decreases n,
{
    if n > 0 && !unicode_alphanumeric(t[n - 1]) {
        lemma_alnum_end_bounds(t, n - 1);
    }
}

proof fn lemma_alnum_end_agree(a: Seq<char>, b: Seq<char>, n: int)
    requires
        0 <= n <= a.len(),
        n <= b.len(),
        forall|i: int| 0 <= i < n ==> unicode_alphanumeric(a[i]) == unicode_alphanumeric(b[i]),
    ensures
        alnum_end_at(a, n) == alnum_end_at(b, n),
    decreases n,
{
    if n > 0 {
        lemma_alnum_end_agree(a, b, n - 1);
    }
}

proof fn lemma_first_alnum_bounds(t: Seq<char>, i: int, k: int)
    requires
        0 <= i <= k < t.len(),
        unicode_alphanumeric(t[k]),
    ensures
        i <= first_alnum_from(t, i) <= k,
    decreases k - i,
{
    if !unicode_alphanumeric(t[i]) {
        lemma_first_alnum_bounds(t, i + 1, k);
    }
}

proof fn lemma_first_alnum_shape(a: Seq<char>, b: Seq<char>, i: int)
    requires
        a.len() == b.len(),
        0 <= i,
        forall|k: int| 0 <= k < a.len() ==> unicode_alphanumeric(a[k]) == unicode_alphanumeric(b[k]),
    ensures
        first_alnum_from(a, i) == first_alnum_from(b, i),
    decreases a.len() - i,
{
    if i < a.len() {
        lemma_first_alnum_shape(a, b, i + 1);
    }
}

proof fn lemma_first_alnum_prefix(a: Seq<char>, b: Seq<char>, i: int, k: int)
    requires
        b.len() <= a.len(),
        forall|m: int| 0 <= m < b.len() ==> a[m] == b[m],
        0 <= i <= k < b.len(),
        unicode_alphanumeric(b[k]),
    ensures
        first_alnum_from(a, i) == first_alnum_from(b, i),
    decreases k - i,
{
    if !unicode_alphanumeric(b[i]) {
        lemma_first_alnum_prefix(a, b, i + 1, k);
    }
}

/// Two words whose characters agree, place by place, in being letters or
/// digits and in their ASCII-lowercased codes are fillers alike.
proof fn lemma_filler_shape(a: Seq<char>, b: Seq<char>)
    requires
        a.len() == b.len(),
        forall|k: int|
            0 <= k < a.len() ==> unicode_alphanumeric(#[trigger] a[k]) == unicode_alphanumeric(b[k])
                && ascii_lower_code(a[k]) == ascii_lower_code(b[k]),
    ensures
        is_filler_token(a) == is_filler_token(b),
{
    let n = a.len() as int;
    lemma_alnum_end_agree(a, b, n);
    let end = alnum_end(a);
    lemma_alnum_end_bounds(a, n);
    if end > 0 {
        lemma_first_alnum_shape(a, b, 0);
        lemma_first_alnum_bounds(a, 0, end - 1);
        let f = first_alnum_from(a, 0);
        let ca = word_core(a);
        let cb = word_core(b);
        assert(ca == a.subrange(f, end));
        assert(cb == b.subrange(f, end));
        assert forall|m: int| 0 <= m < fillers().len() implies eq_ignore_ascii_case(
            ca,
            #[trigger] fillers()[m],
        ) == eq_ignore_ascii_case(cb, fillers()[m]) by {
            if eq_ignore_ascii_case(ca, fillers()[m]) {
                assert forall|i: int| 0 <= i < cb.len() implies ascii_lower_code(#[trigger] cb[i])
                    == ascii_lower_code(fillers()[m][i]) by {
                    assert(ca[i] == a[f + i]);
                    assert(cb[i] == b[f + i]);
                }
            }
            if eq_ignore_ascii_case(cb, fillers()[m]) {
                assert forall|i: int| 0 <= i < ca.len() implies ascii_lower_code(#[trigger] ca[i])
                    == ascii_lower_code(fillers()[m][i]) by {
                    assert(ca[i] == a[f + i]);
                    assert(cb[i] == b[f + i]);
                }
            }
        }
        if is_filler(ca) {
            let m = choose|m: int| 0 <= m < fillers().len() && eq_ignore_ascii_case(ca, #[trigger] fillers()[m]);
            assert(eq_ignore_ascii_case(cb, fillers()[m]));
        }
        if is_filler(cb) {
            let m = choose|m: int| 0 <= m < fillers().len() && eq_ignore_ascii_case(cb, #[trigger] fillers()[m]);
            assert(eq_ignore_ascii_case(ca, fillers()[m]));
        }
    }
}

/// Dropping a last character that is no letter or digit leaves the core of
/// a word as it was.
proof fn lemma_core_drop_mark(w: Seq<char>)
    requires
        w.len() > 0,
        !unicode_alphanumeric(w.last()),
    ensures
        word_core(w.drop_last()) == word_core(w),
{
    let d = w.drop_last();
    let n = w.len() - 1;
    assert(alnum_end(w) == alnum_end_at(w, n));
    lemma_alnum_end_agree(w, d, n);
    assert(alnum_end(d) == alnum_end_at(d, n));
    let end = alnum_end(w);
    lemma_alnum_end_bounds(d, n);
    if end > 0 {
        lemma_first_alnum_prefix(w, d, 0, end - 1);
        lemma_first_alnum_bounds(d, 0, end - 1);
        let f = first_alnum_from(d, 0);
        assert(w.subrange(f, end) =~= d.subrange(f, end));
    }
}

/// The capital that a dropped filler hands on leaves the word a word: its
/// first character is ASCII, or uppercase leaves it as it is.
pub open spec fn plain_initial(w: Seq<char>) -> bool {
    w.len() > 0 ==> ((w[0] as u32) < 128 || unicode_uppercase(w[0]) == seq![w[0]])
}

/// A word fit to be kept: non-empty, without whitespace, and no filler.
pub open spec fn good_word(w: Seq<char>) -> bool {
    w.len() > 0 && no_whitespace(w) && !is_filler_token(w)
}

proof fn lemma_trim_clause_marks(w: Seq<char>)
    ensures
        trim_clause_marks(w).len() <= w.len(),
        forall|i: int| 0 <= i < trim_clause_marks(w).len() ==> #[trigger] trim_clause_marks(w)[i] == w[i],
        word_core(trim_clause_marks(w)) == word_core(w),
    decreases w.len(),
{
    if w.len() > 0 && is_clause_mark(w.last()) {
        let d = w.drop_last();
        lemma_trim_clause_marks(d);
        assert(!unicode_alphanumeric(w.last()));
        lemma_core_drop_mark(w);
        assert forall|i: int| 0 <= i < trim_clause_marks(w).len() implies #[trigger] trim_clause_marks(
            w,
        )[i] == w[i] by {
            assert(trim_clause_marks(w)[i] == d[i]);
        }
    }
}

/// Closing a kept word with a carried sentence end keeps it fit to be kept.
proof fn lemma_close_good(base: Seq<char>, e: char)
    requires
        no_whitespace(base),
        !is_filler_token(base),
        is_sentence_end(e),
    ensures
        good_word(close_sentence(base, e)),
{
    let t = trim_clause_marks(base);
    lemma_trim_clause_marks(base);
    assert(no_whitespace(t)) by {
        assert forall|i: int| 0 <= i < t.len() implies !unicode_whitespace(#[trigger] t[i]) by {
            assert(t[i] == base[i]);
        }
    }
    if !ends_sentence(t) {
        let r = t.push(e);
        assert(!unicode_alphanumeric(e));
        assert(!unicode_whitespace(e));
        assert(r.drop_last() =~= t);
        lemma_core_drop_mark(r);
        assert forall|i: int| 0 <= i < r.len() implies !unicode_whitespace(#[trigger] r[i]) by {
            if i < t.len() {
                assert(r[i] == t[i]);
            }
        }
    }
}

/// The capital a dropped filler hands on keeps a word fit to be kept.
proof fn lemma_capitalize_good(t: Seq<char>)
    requires
        good_word(t),
        plain_initial(t),
    ensures
        good_word(capitalize(t)),
{
    let c = t[0];
    if (c as u32) < 128 {
        let u = ascii_upper(c);
        let cap = capitalize(t);
        assert(cap =~= t.update(0, u));
        assert(!unicode_whitespace(c));
        assert(!unicode_whitespace(u));
        assert(unicode_alphanumeric(u) == unicode_alphanumeric(c));
        assert(ascii_lower_code(u) == ascii_lower_code(c));
        lemma_filler_shape(t, cap);
        assert forall|i: int| 0 <= i < cap.len() implies !unicode_whitespace(#[trigger] cap[i]) by {
            if i > 0 {
                assert(cap[i] == t[i]);
            }
        }
    } else {
        assert(capitalize(t) =~= t);
    }
}

/// A word that stems from a word fit to be kept is fit to be kept.
proof fn lemma_stem_good(w: Seq<char>, t: Seq<char>)
    requires
        good_word(t),
        plain_initial(t),
        stems_from(w, t),
    ensures
        good_word(w),
{
    lemma_capitalize_good(t);
    let base = if closes(t, w) {
        t
    } else {
        capitalize(t)
    };
    assert(closes(base, w));
    if w != base {
        let e = choose|e: char| is_sentence_end(e) && w == #[trigger] close_sentence(base, e);
        lemma_close_good(base, e);
    }
}

proof fn lemma_kept_words_from(toks: Seq<Seq<char>>)
    ensures
        forall|j: int|
            0 <= j < kept_words(toks).len() ==> exists|i: int|
                0 <= i < toks.len() && toks[i] == #[trigger] kept_words(toks)[j],
    decreases toks.len(),
{
    if toks.len() > 0 {
        let rest = toks.drop_last();
        lemma_kept_words_from(rest);
        let kept = kept_words(toks);
        assert forall|j: int| 0 <= j < kept.len() implies exists|i: int|
            0 <= i < toks.len() && toks[i] == #[trigger] kept[j] by {
            if j < kept_words(rest).len() {
                assert(kept[j] == kept_words(rest)[j]);
                let i = choose|i: int| 0 <= i < rest.len() && rest[i] == #[trigger] kept_words(rest)[j];
                assert(toks[i] == rest[i]);
            } else {
                assert(kept[j] == toks[toks.len() - 1]);
            }
        }
    }
}

/// A second pass of filler removal changes nothing, for transcripts whose
/// words each begin with an ASCII character or with one that uppercase
/// leaves as it is.
pub proof fn law_second_pass_changes_nothing(s: Seq<char>)
    requires
        forall|i: int| 0 <= i < words(s).len() ==> plain_initial(#[trigger] words(s)[i]),
    ensures
        without_fillers(without_fillers(s)) == without_fillers(s),
{
    let toks = words(s);
    let out = tidy_words(toks).0;
    let kept = kept_words(toks);
    lemma_words_proper(s);
    lemma_tidy_kept_words(toks);
    lemma_kept_words_not_fillers(toks);
    lemma_kept_words_from(toks);
    assert forall|j: int| 0 <= j < out.len() implies #[trigger] out[j].len() > 0 && no_whitespace(
        out[j],
    ) && !is_filler_token(out[j]) by {
        let i = choose|i: int| 0 <= i < toks.len() && toks[i] == #[trigger] kept[j];
        assert(toks[i].len() > 0 && no_whitespace(toks[i]));
        assert(plain_initial(toks[i]));
        assert(!is_filler_token(kept[j]));
        assert(stems_from(out[j], kept[j]));
        lemma_stem_good(out[j], kept[j]);
    }
    assert(proper_words(out));
    lemma_words_of_join(out);
    lemma_tidy_no_fillers(out);
}

} // verus!

verus! {

/// `w` with its ASCII uppercase letters lowered.
pub open spec fn ascii_lowered(w: Seq<char>) -> Seq<char> {
    Seq::new(
        w.len(),
        |i: int|
            if 'A' <= w[i] && w[i] <= 'Z' {
                ((w[i] as u32) + 32) as char
            } else {
                w[i]
            },
    )
}

/// The spellings of hesitation sounds, in lowercase.
pub open spec fn is_filler_spelling(l: Seq<char>) -> bool {
    ||| l == seq!['u', 'm']
    ||| l == seq!['u', 'm', 'm']
    ||| l == seq!['u', 'h']
    ||| l == seq!['u', 'h', 'h']
    ||| l == seq!['u', 'h', 'm']
    ||| l == seq!['e', 'r', 'm']
}

/// A filler is a whole word: `w` is one exactly when, ASCII case ignored, it
/// is spelled um, umm, uh, uhh, uhm or erm; a longer word that merely
/// contains or ends in one ("museum", "album") is none.
pub proof fn law_fillers_are_whole_words(w: Seq<char>)
    ensures
        is_filler(w) <==> is_filler_spelling(ascii_lowered(w)),
{
    let l = ascii_lowered(w);
    assert forall|i: int| 0 <= i < w.len() implies (#[trigger] l[i]) as int == ascii_lower_code(
        w[i],
    ) by {}
    assert forall|k: int| 0 <= k < fillers().len() implies eq_ignore_ascii_case(
        w,
        #[trigger] fillers()[k],
    ) == (l == fillers()[k]) by {
        let f = fillers()[k];
        assert forall|j: int| 0 <= j < f.len() implies ascii_lower_code(#[trigger] f[j]) == f[j] as int by {}
        if eq_ignore_ascii_case(w, f) {
            assert(l =~= f);
        }
        if l == f {
            assert forall|j: int| 0 <= j < w.len() implies ascii_lower_code(#[trigger] w[j])
                == ascii_lower_code(f[j]) by {
                assert(l[j] == f[j]);
            }
        }
    }
    if is_filler_spelling(l) {
        if l == seq!['u', 'm'] {
            assert(l == fillers()[0]);
        } else if l == seq!['u', 'm', 'm'] {
            assert(l == fillers()[1]);
        } else if l == seq!['u', 'h'] {
            assert(l == fillers()[2]);
        } else if l == seq!['u', 'h', 'h'] {
            assert(l == fillers()[3]);
        } else if l == seq!['u', 'h', 'm'] {
            assert(l == fillers()[4]);
        } else {
            assert(l == fillers()[5]);
        }
    }
    if is_filler(w) {
        let k = choose|k: int| 0 <= k < fillers().len() && eq_ignore_ascii_case(w, #[trigger] fillers()[k]);
        assert(l == fillers()[k]);
        assert(0 <= k < 6);
        if k == 0 {
        } else if k == 1 {
        } else if k == 2 {
        } else if k == 3 {
        } else if k == 4 {
        } else {
        }
    }
}

/// A transcript in which no word, once its surrounding punctuation is
/// ignored, is spelled like a hesitation sound comes back as its words
/// joined by single spaces ("The museum opens at nine." stays as it is).
pub proof fn law_words_unlike_fillers_kept(s: Seq<char>)
    requires
        forall|i: int|
            0 <= i < words(s).len() ==> !is_filler_spelling(
                ascii_lowered(word_core(#[trigger] words(s)[i])),
            ),
    ensures
        without_fillers(s) == join_words(words(s)),
{
    assert forall|i: int| 0 <= i < words(s).len() implies !is_filler_token(#[trigger] words(s)[i]) by {
        law_fillers_are_whole_words(word_core(words(s)[i]));
    }
    law_real_words_kept(s);
}

} // verus!
