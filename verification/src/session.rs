//! The typing-test session: letter state machine and session controller.
//!
//! A session owns the letter sequence, the cursor, the lazily started timer
//! and the live speed tracker. The surrounding application runs the render
//! loop: it polls the terminal, translates what it read into a [`TestEvent`]
//! and hands it in together with the current instant of a monotonic clock,
//! in milliseconds. Every decision — how a key moves the cursor and marks
//! letters, when the run is complete, and what the outcome record holds —
//! is made here.

use vstd::prelude::*;
use crate::layout::{spec_text_area, spec_text_origin, PAD_X, PAD_Y};
use crate::letter::{chars_of, hit_count, miss_count, untyped_slot, Letter};
use crate::live_wpm::LiveWPM;
use crate::test_mode::TestMode;
use crate::test_result::TestResult;
use crate::wordlist::Wordlist;
use crate::wpm::{spec_wpm_gross, spec_wpm_net, wpm_gross, wpm_net};

verus! {

/// A logical key, as the session understands it. The application translates
/// whatever its terminal backend reports into one of these.
#[derive(Clone, Copy, Debug, PartialEq, Eq, Structural)]
pub enum Key {
    Backspace,
    Char(char),
    Esc,
    Other,
}

/// One observation of the outside world, handed to the session each loop
/// iteration: a key press, a viewport resize, or a poll timeout.
#[derive(Clone, Copy, Debug, PartialEq, Eq, Structural)]
pub enum TestEvent {
    Key(Key),
    Resize(u16, u16),
    Tick,
}

/// The abstract state of a session.
pub struct SessionView {
    /// The letter sequence, one slot per phrase character.
    pub letters: Seq<Letter>,
    /// The cursor: index of the next letter to type, in `0 ..= letters.len()`.
    pub cursor: int,
    /// Instant of the first handled key, in milliseconds; `None` before any.
    pub timer: Option<u64>,
    /// The completion mode of this run.
    pub mode: TestMode,
    /// The wordlist the phrase was drawn from.
    pub wordlist: Wordlist,
    /// The viewport size last applied.
    pub screen: (u16, u16),
    /// Top-left cell of the textbox.
    pub origin: (u16, u16),
    /// `(line_width, line_count)` of the textbox.
    pub area: (u16, u16),
    /// Configured upper bound on rendered lines.
    pub line_limit: u16,
}

/// The letter sequence a phrase starts from: every character untyped.
pub open spec fn spec_initial_letters(phrase: Seq<char>) -> Seq<Letter> {
    Seq::new(phrase.len(), |i: int| untyped_slot(phrase[i]))
}

/// The cursor invariant: every letter before the cursor has been typed
/// (`Hit` or `Miss`), every letter at or after it is still untyped.
pub open spec fn cursor_inv(letters: Seq<Letter>, cursor: int) -> bool {
    &&& 0 <= cursor <= letters.len()
    &&& forall|i: int| 0 <= i < cursor ==> !(#[trigger] letters[i]).is_untyped()
    &&& forall|i: int| cursor <= i < letters.len() ==> (#[trigger] letters[i]).is_untyped()
}

/// Index of the first untyped space at or after `from`, if any.
pub open spec fn first_untyped_space(letters: Seq<Letter>, from: int) -> Option<int>
    decreases letters.len() - from,
{
    if from < 0 || from >= letters.len() {
        None
    } else if letters[from] == Letter::Char(' ') {
        Some(from)
    } else {
        first_untyped_space(letters, from + 1)
    }
}

/// Where the word-skip scan starts: one before the cursor, floored at zero.
pub open spec fn spec_skip_start(cursor: int) -> int {
    if cursor <= 0 {
        0
    } else {
        cursor - 1
    }
}

/// The letters of `letters` with every untyped one in `from .. to` marked
/// as missed; everything else is unchanged.
pub open spec fn spec_mark_skipped(letters: Seq<Letter>, from: int, to: int) -> Seq<Letter> {
    Seq::new(
        letters.len(),
        |i: int|
            if from <= i < to && letters[i].is_untyped() {
                Letter::Miss(letters[i].spec_char())
            } else {
                letters[i]
            },
    )
}

/// The word-skip transition: scanning forward from just before the cursor,
/// every untyped letter is marked missed until the first untyped space,
/// which is marked hit; the cursor lands right after that space. With no
/// space left, the rest of the phrase is marked missed and the cursor lands
/// at the phrase end.
pub open spec fn spec_step_skip(letters: Seq<Letter>, cursor: int) -> (Seq<Letter>, int) {
    let start = spec_skip_start(cursor);
    match first_untyped_space(letters, start) {
        Some(s) => (spec_mark_skipped(letters, start, s).update(s, Letter::Hit(' ')), s + 1),
        None => (spec_mark_skipped(letters, start, letters.len() as int), letters.len() as int),
    }
}

/// The letter-state transition for one key:
/// - backspace reverts the letter before the cursor to untyped and steps
///   the cursor back, or does nothing at the start;
/// - the expected character marks a hit and advances;
/// - a space where none is expected triggers the word-skip;
/// - any other character where a space is expected is rejected outright;
/// - any other character marks a miss and advances;
/// - with the phrase exhausted, or on any other key, nothing changes.
pub open spec fn spec_step_key(letters: Seq<Letter>, cursor: int, key: Key) -> (Seq<Letter>, int) {
    match key {
        Key::Backspace => if cursor <= 0 {
            (letters, cursor)
        } else {
            (letters.update(cursor - 1, Letter::Char(letters[cursor - 1].spec_char())), cursor - 1)
        },
        Key::Char(c) => if 0 <= cursor < letters.len() && letters[cursor].is_untyped() {
            let expected = letters[cursor].spec_char();
            if c == expected {
                (letters.update(cursor, Letter::Hit(expected)), cursor + 1)
            } else if c == ' ' {
                spec_step_skip(letters, cursor)
            } else if expected == ' ' {
                (letters, cursor)
            } else {
                (letters.update(cursor, Letter::Miss(expected)), cursor + 1)
            }
        } else {
            (letters, cursor)
        },
        _ => (letters, cursor),
    }
}

/// How many words the phrase holds: maximal runs of non-space characters,
/// as a whitespace split would count them.
pub open spec fn word_count(s: Seq<char>) -> nat
    decreases s.len(),
{
    if s.len() == 0 {
        0
    } else {
        word_count(s.drop_last()) + if s.last() != ' ' && (s.len() == 1 || s[s.len() - 2] == ' ') {
            1nat
        } else {
            0nat
        }
    }
}

/// The completion predicate. A fixed-word run is complete once the whole
/// phrase is consumed and at least one key has been handled; a fixed-time
/// run is complete once the budget has elapsed since the first key, and
/// never before any key was pressed.
pub open spec fn spec_complete(v: SessionView, now: u64) -> bool {
    match v.mode {
        TestMode::Words(_) => v.timer is Some && v.cursor >= v.letters.len(),
        TestMode::Time(d) => match v.timer {
            Some(t) => now - t >= d,
            None => false,
        },
    }
}

/// True when `res` is the outcome record the state `v` yields at instant
/// `now`: word count from a whitespace split of the phrase, hit and miss
/// counts from the letter states, the elapsed time since the first key, and
/// the speed pair computed over the whole phrase in a fixed-word run or
/// over the consumed prefix in a fixed-time run.
pub open spec fn spec_outcome_matches(v: SessionView, now: u64, res: TestResult) -> bool {
    match v.timer {
        Some(t0) => {
            let elapsed = now - t0;
            let typed = match v.mode {
                TestMode::Words(_) => v.letters.len() as int,
                TestMode::Time(_) => v.cursor,
            };
            &&& res.length == word_count(chars_of(v.letters))
            &&& res.wordlist == v.wordlist
            &&& res.mode == v.mode
            &&& res.hits == hit_count(v.letters)
            &&& res.misses == miss_count(v.letters)
            &&& res.time_ms == elapsed
            &&& res.wpm.0 == spec_wpm_gross(typed as nat, elapsed as nat)
            &&& res.wpm.1 == spec_wpm_net(typed as nat, miss_count(v.letters), elapsed as nat)
        },
        None => false,
    }
}

/// What `first_untyped_space` finds: an untyped space with none before it,
/// or a guarantee that none remains.
proof fn lemma_first_untyped_space(letters: Seq<Letter>, from: int)
    requires
        0 <= from,
    ensures
        match first_untyped_space(letters, from) {
            Some(s) => {
                &&& from <= s < letters.len()
                &&& letters[s] == Letter::Char(' ')
                &&& forall|i: int| from <= i < s ==> letters[i] != Letter::Char(' ')
            },
            None => forall|i: int| from <= i < letters.len() ==> letters[i] != Letter::Char(' '),
        },
    decreases letters.len() - from,
{
    if from < 0 || from >= letters.len() {
    } else if letters[from] == Letter::Char(' ') {
    } else {
        lemma_first_untyped_space(letters, from + 1);
    }
}

/// With no untyped space in `from .. s` and an untyped space at `s`, the
/// scan finds exactly `s`.
proof fn lemma_first_space_at(letters: Seq<Letter>, from: int, s: int)
    requires
        0 <= from <= s < letters.len(),
        forall|i: int| from <= i < s ==> letters[i] != Letter::Char(' '),
        letters[s] == Letter::Char(' '),
    ensures
        first_untyped_space(letters, from) == Some(s),
    decreases s - from,
{
    if from < s {
        lemma_first_space_at(letters, from + 1, s);
    }
}

/// With no untyped space at or after `from`, the scan finds nothing.
proof fn lemma_first_space_none(letters: Seq<Letter>, from: int)
    requires
        0 <= from,
        forall|i: int| from <= i < letters.len() ==> letters[i] != Letter::Char(' '),
    ensures
        first_untyped_space(letters, from) is None,
    decreases letters.len() - from,
{
    if from < letters.len() {
        lemma_first_space_none(letters, from + 1);
    }
}

/// The word-skip transition preserves the cursor invariant and the wrapped
/// characters.
proof fn lemma_skip_preserves_inv(letters: Seq<Letter>, cursor: int)
    requires
        cursor_inv(letters, cursor),
    ensures
        cursor_inv(spec_step_skip(letters, cursor).0, spec_step_skip(letters, cursor).1),
        chars_of(spec_step_skip(letters, cursor).0) == chars_of(letters),
{
    let start = spec_skip_start(cursor);
    lemma_first_untyped_space(letters, start);
    match first_untyped_space(letters, start) {
        Some(s) => {
            // the letter just before the cursor is typed, so the space found
            // lies at or after the cursor
            assert(s >= cursor);
            let marked = spec_mark_skipped(letters, start, s).update(s, Letter::Hit(' '));
            assert forall|i: int| 0 <= i < s + 1 implies !(#[trigger] marked[i]).is_untyped() by {}
            assert(chars_of(marked) =~= chars_of(letters));
        },
        None => {
            let marked = spec_mark_skipped(letters, start, letters.len() as int);
            assert(chars_of(marked) =~= chars_of(letters));
        },
    }
}

/// The letter state machine keeps the cursor invariant and never changes a
/// letter's wrapped character: from any state satisfying the invariant,
/// any key leads to a state satisfying it again, over the same characters.
pub proof fn lemma_step_preserves_inv(letters: Seq<Letter>, cursor: int, key: Key)
    requires
        cursor_inv(letters, cursor),
    ensures
        cursor_inv(spec_step_key(letters, cursor, key).0, spec_step_key(letters, cursor, key).1),
        chars_of(spec_step_key(letters, cursor, key).0) == chars_of(letters),
{
    match key {
        Key::Backspace => {
            if cursor > 0 {
                let stepped = spec_step_key(letters, cursor, key).0;
                assert(chars_of(stepped) =~= chars_of(letters));
            }
        },
        Key::Char(c) => {
            if 0 <= cursor < letters.len() && letters[cursor].is_untyped() {
                let expected = letters[cursor].spec_char();
                if c == expected || (c != ' ' && expected != ' ') {
                    let stepped = spec_step_key(letters, cursor, key).0;
                    assert(chars_of(stepped) =~= chars_of(letters));
                } else if c == ' ' {
                    lemma_skip_preserves_inv(letters, cursor);
                }
            }
        },
        _ => {},
    }
}

/// The state after typing the next `k` expected characters, one keypress
/// per letter, starting from `letters` with the cursor at `cursor`.
pub open spec fn spec_type_expected(letters: Seq<Letter>, cursor: int, k: nat) -> (Seq<Letter>, int)
    decreases k,
{
    if k == 0 {
        (letters, cursor)
    } else {
        let stepped = spec_step_key(letters, cursor, Key::Char(letters[cursor].spec_char()));
        spec_type_expected(stepped.0, stepped.1, (k - 1) as nat)
    }
}

/// Every letter of an all-hit sequence counts as a hit and none as a miss.
proof fn lemma_all_hit_counts(s: Seq<Letter>)
    requires
        forall|i: int| 0 <= i < s.len() ==> (#[trigger] s[i]) is Hit,
    ensures
        hit_count(s) == s.len(),
        miss_count(s) == 0,
    decreases s.len(),
{
    if s.len() > 0 {
        lemma_all_hit_counts(s.drop_last());
    }
}

/// From a state whose typed prefix is all hits, typing the remaining `k`
/// expected characters consumes them all, leaving every letter hit.
proof fn lemma_round_trip_aux(letters: Seq<Letter>, cursor: int, k: nat)
    requires
        cursor_inv(letters, cursor),
        forall|i: int| 0 <= i < cursor ==> (#[trigger] letters[i]) is Hit,
        cursor + k == letters.len(),
    ensures
        ({
            let (l, c) = spec_type_expected(letters, cursor, k);
            &&& c == letters.len()
            &&& l.len() == letters.len()
            &&& forall|i: int| 0 <= i < l.len() ==> (#[trigger] l[i]) is Hit
            &&& chars_of(l) == chars_of(letters)
        }),
    decreases k,
{
    if k > 0 {
        let key = Key::Char(letters[cursor].spec_char());
        lemma_step_preserves_inv(letters, cursor, key);
        let (l1, c1) = spec_step_key(letters, cursor, key);
        assert(l1 == letters.update(cursor, Letter::Hit(letters[cursor].spec_char())));
        assert(c1 == cursor + 1);
        assert forall|i: int| 0 <= i < c1 implies (#[trigger] l1[i]) is Hit by {}
        lemma_round_trip_aux(l1, c1, (k - 1) as nat);
    }
}

/// Round trip: typing the exact expected character sequence of a fresh
/// phrase of length N, one key per letter and with no mistakes, moves the
/// cursor to N with N letters hit and none missed.
pub proof fn lemma_perfect_round_trip(phrase: Seq<char>)
    ensures
        ({
            let (l, c) = spec_type_expected(spec_initial_letters(phrase), 0, phrase.len());
            &&& c == phrase.len()
            &&& hit_count(l) == phrase.len()
            &&& miss_count(l) == 0
        }),
{
    let letters = spec_initial_letters(phrase);
    assert forall|i: int| 0 <= i < letters.len() implies (#[trigger] letters[i]).is_untyped() by {
        assert(letters[i] == untyped_slot(phrase[i]));
    }
    lemma_round_trip_aux(letters, 0, phrase.len());
    let (l, c) = spec_type_expected(letters, 0, phrase.len());
    lemma_all_hit_counts(l);
}

/// Backspace inverse: typing a character that lands as a hit or an
/// ordinary miss and then backspacing restores the previous letters and
/// cursor exactly. A space where none is expected skips a whole word and a
/// non-space where a space is expected is rejected outright, so for those
/// two inputs one backspace is no inverse; they are excluded here.
pub proof fn lemma_backspace_inverse(letters: Seq<Letter>, cursor: int, c: char)
    requires
        cursor_inv(letters, cursor),
        cursor < letters.len(),
        c == letters[cursor].spec_char() || (c != ' ' && letters[cursor].spec_char() != ' '),
    ensures
        ({
            let (l1, c1) = spec_step_key(letters, cursor, Key::Char(c));
            spec_step_key(l1, c1, Key::Backspace) == (letters, cursor)
        }),
{
    let expected = letters[cursor].spec_char();
    let (l1, c1) = spec_step_key(letters, cursor, Key::Char(c));
    assert(c1 == cursor + 1);
    let (l2, c2) = spec_step_key(l1, c1, Key::Backspace);
    assert(letters[cursor] == Letter::Char(expected));
    assert(l2 =~= letters);
}

/// Space rejection: pressing any non-space character while the expected
/// character is a space leaves the cursor and every letter unchanged.
pub proof fn lemma_space_rejection(letters: Seq<Letter>, cursor: int, c: char)
    requires
        cursor_inv(letters, cursor),
        cursor < letters.len(),
        letters[cursor].spec_char() == ' ',
        c != ' ',
    ensures
        spec_step_key(letters, cursor, Key::Char(c)) == (letters, cursor),
{
}

/// Renders a typing test with the given phrase and drives it to an outcome.
pub struct TestRenderer {
    /// Tracks the live speed.
    live_wpm: LiveWPM,
    /// Wordlist used.
    wordlist: Wordlist,
    /// Mode used.
    mode: TestMode,
    /// Letters of the selected phrase.
    letters: Vec<Letter>,
    /// Test timer: instant of the first handled key.
    timer: Option<u64>,
    /// Cursor position.
    cursor: usize,
    /// Screen size.
    screen_size: (u16, u16),
    /// Textbox limits: origin and `(line_width, line_count)`.
    text_limit: ((u16, u16), (u16, u16)),
    /// Line limit.
    line_limit: u16,
}

impl View for TestRenderer {
    type V = SessionView;

    closed spec fn view(&self) -> SessionView {
        SessionView {
            letters: self.letters@,
            cursor: self.cursor as int,
            timer: self.timer,
            mode: self.mode,
            wordlist: self.wordlist,
            screen: self.screen_size,
            origin: self.text_limit.0,
            area: self.text_limit.1,
            line_limit: self.line_limit,
        }
    }
}

impl TestRenderer {
    /// The live speed tracker this session feeds.
    pub closed spec fn live(self) -> LiveWPM {
        self.live_wpm
    }

    /// Well-formed: the cursor invariant holds and the live tracker is
    /// well-formed.
    pub open spec fn wf(self) -> bool {
        &&& cursor_inv(self@.letters, self@.cursor)
        &&& self.live().wf()
    }

    /// The latest instant this session has seen; a caller with a monotonic
    /// clock never hands in an earlier "now".
    pub open spec fn latest(self) -> int {
        let lw = self.live().latest();
        match self@.timer {
            Some(t) => if t as int > lw {
                t as int
            } else {
                lw
            },
            None => lw,
        }
    }

    /// A fresh session over `phrase`, created at instant `now_ms`: every
    /// letter untyped, the cursor at the start, the timer unset, and no
    /// layout applied yet.
    pub fn new(wordlist: Wordlist, phrase: String, mode: TestMode, now_ms: u64) -> (r: Self)
        ensures
            r.wf(),
            r@.letters == spec_initial_letters(phrase@),
            r@.cursor == 0,
            r@.timer is None,
            r@.mode == mode,
            r@.wordlist == wordlist,
            r.live().presses() == Seq::<u64>::empty(),
            r.latest() == now_ms,
            r@.screen == (0u16, 0u16),
            r@.origin == (0u16, 0u16),
            r@.area == (0u16, 0u16),
            r@.line_limit == 0u16,
    {
        let phrase_str = phrase.as_str();
        let n = phrase_str.unicode_len();
        let mut letters: Vec<Letter> = Vec::new();
        let mut i: usize = 0;
        while i < n
            invariant
                n == phrase@.len(),
                0 <= i <= n,
                letters@.len() == i,
                forall|j: int| 0 <= j < i ==> letters@[j] == Letter::Char(phrase@[j]),
                phrase_str@ == phrase@,
            decreases n - i,
        {
            letters.push(Letter::Char(phrase_str.get_char(i)));
            i += 1;
        }
        proof {
            assert forall|j: int| 0 <= j < phrase@.len() implies letters@[j]
                == spec_initial_letters(phrase@)[j] by {
                assert(spec_initial_letters(phrase@)[j] == untyped_slot(phrase@[j]));
            }
            assert(letters@ =~= spec_initial_letters(phrase@));
        }
        Self {
            live_wpm: LiveWPM::new(now_ms),
            wordlist,
            mode,
            letters,
            timer: None,
            cursor: 0,
            screen_size: (0, 0),
            text_limit: ((0, 0), (0, 0)),
            line_limit: 0,
        }
    }

    /// Returns true if the cursor is in bounds of the phrase.
    pub fn cursor_in_bounds(&self) -> (r: bool)
        ensures
            r == (self@.cursor < self@.letters.len()),
    {
        self.cursor < self.letters.len()
    }

    /// Handles a keypress at instant `now_ms`: starts the timer if it is
    /// not running yet, then applies the letter-state transition
    /// [`spec_step_key`]. Nothing else of the session changes.
    pub fn handle_key(&mut self, key: Key, now_ms: u64)
        requires
            old(self).wf(),
            now_ms >= old(self).latest(),
        ensures
            final(self).wf(),
            final(self).latest() <= now_ms,
            (final(self)@.letters, final(self)@.cursor) == spec_step_key(
                old(self)@.letters,
                old(self)@.cursor,
                key,
            ),
            chars_of(final(self)@.letters) == chars_of(old(self)@.letters),
            final(self)@.timer == (if old(self)@.timer is Some {
                old(self)@.timer
            } else {
                Some(now_ms)
            }),
            final(self)@.mode == old(self)@.mode,
            final(self)@.wordlist == old(self)@.wordlist,
            final(self).live() == old(self).live(),
            final(self)@.screen == old(self)@.screen,
            final(self)@.origin == old(self)@.origin,
            final(self)@.area == old(self)@.area,
            final(self)@.line_limit == old(self)@.line_limit,
    {
        proof {
            lemma_step_preserves_inv(self@.letters, self@.cursor, key);
        }
        // if the timer hasn't started, the first keypress should start it
        if self.timer.is_none() {
            self.timer = Some(now_ms);
        }
        match key {
            Key::Backspace => {
                // prevent us from deleting into nowhere
                if self.cursor > 0 {
                    self.cursor = self.cursor - 1;
                    let c = self.letters[self.cursor].character();
                    self.letters.set(self.cursor, Letter::Char(c));
                }
            },
            Key::Char(c) => {
                if self.cursor < self.letters.len() {
                    if let Letter::Char(expected) = self.letters[self.cursor] {
                        if c == expected {
                            // correct keypress
                            self.letters.set(self.cursor, Letter::Hit(expected));
                            self.cursor = self.cursor + 1;
                        } else if c == ' ' {
                            // early space - jump to the end of the word
                            self.word_skip();
                        } else if expected == ' ' {
                            // don't allow progression past a required space
                        } else {
                            // incorrect keypress
                            self.letters.set(self.cursor, Letter::Miss(expected));
                            self.cursor = self.cursor + 1;
                        }
                    }
                }
            },
            _ => {},
        }
    }

    /// Jumps the cursor past the space following the current word, marking
    /// the skipped letters as missed: the transition [`spec_step_skip`].
    #[verifier::loop_isolation(false)]
    fn word_skip(&mut self)
        requires
            cursor_inv(old(self)@.letters, old(self)@.cursor),
        ensures
            (final(self)@.letters, final(self)@.cursor) == spec_step_skip(
                old(self)@.letters,
                old(self)@.cursor,
            ),
            final(self)@.timer == old(self)@.timer,
            final(self)@.mode == old(self)@.mode,
            final(self)@.wordlist == old(self)@.wordlist,
            final(self).live() == old(self).live(),
            final(self)@.screen == old(self)@.screen,
            final(self)@.origin == old(self)@.origin,
            final(self)@.area == old(self)@.area,
            final(self)@.line_limit == old(self)@.line_limit,
    {
        let ghost l0 = self.letters@;
        let ghost c0 = self.cursor as int;
        let len = self.letters.len();
        let start = if self.cursor == 0 {
            0
        } else {
            self.cursor - 1
        };
        let mut i = start;
        proof {
            assert(self.letters@ =~= spec_mark_skipped(l0, start as int, start as int));
        }
        while i < len
            invariant
                l0.len() == len,
                start == spec_skip_start(c0),
                start <= i <= len,
                self.letters@ == spec_mark_skipped(l0, start as int, i as int),
                forall|j: int| start <= j < i ==> l0[j] != Letter::Char(' '),
                self.cursor == c0,
                self.timer == old(self)@.timer,
                self.mode == old(self)@.mode,
                self.wordlist == old(self)@.wordlist,
                self.live_wpm == old(self).live(),
                self.screen_size == old(self)@.screen,
                self.text_limit.0 == old(self)@.origin,
                self.text_limit.1 == old(self)@.area,
                self.line_limit == old(self)@.line_limit,
            decreases len - i,
        {
            proof {
                assert(self.letters@[i as int] == l0[i as int]);
            }
            match self.letters[i] {
                Letter::Char(ch) => {
                    if ch == ' ' {
                        self.letters.set(i, Letter::Hit(' '));
                        self.cursor = i + 1;
                        proof {
                            lemma_first_space_at(l0, start as int, i as int);
                        }
                        return;
                    } else {
                        self.letters.set(i, Letter::Miss(ch));
                        proof {
                            assert(self.letters@ =~= spec_mark_skipped(
                                l0,
                                start as int,
                                i + 1 as int,
                            ));
                        }
                    }
                },
                _ => {
                    proof {
                        assert(self.letters@ =~= spec_mark_skipped(l0, start as int, i + 1 as int));
                    }
                },
            }
            i += 1;
        }
        self.cursor = len;
        proof {
            lemma_first_space_none(l0, start as int);
        }
    }

    /// Applies a viewport size: recomputes where the textbox starts and how
    /// wide it is. Called once at session start and again on every resize.
    /// A viewport narrower than both paddings cannot hold a textbox.
    pub fn apply_screen_limits(&mut self, screen: (u16, u16))
        requires
            screen.0 >= 2 * PAD_X,
        ensures
            final(self)@.screen == screen,
            final(self)@.origin == spec_text_origin(screen, old(self)@.letters.len()),
            final(self)@.area == spec_text_area(screen, old(self)@.line_limit),
            final(self)@.letters == old(self)@.letters,
            final(self)@.cursor == old(self)@.cursor,
            final(self)@.timer == old(self)@.timer,
            final(self)@.mode == old(self)@.mode,
            final(self)@.wordlist == old(self)@.wordlist,
            final(self)@.line_limit == old(self)@.line_limit,
            final(self).live() == old(self).live(),
            final(self).latest() == old(self).latest(),
            old(self).wf() ==> final(self).wf(),
    {
        self.screen_size = screen;
        let len16: u16 = #[verifier::truncate] (self.letters.len() as u16);
        let half = screen.0 / 2;
        let len_half = len16 / 2;
        let centered = if half >= len_half {
            half - len_half
        } else {
            0
        };
        let shifted = if centered >= PAD_X {
            centered - PAD_X
        } else {
            0
        };
        let origin_x = if shifted > PAD_X {
            shifted
        } else {
            PAD_X
        };
        self.text_limit = ((origin_x, PAD_Y + 2), (screen.0 - 2 * PAD_X, self.line_limit));
    }

    /// Sets the configured upper bound on rendered lines; takes effect at
    /// the next [`Self::apply_screen_limits`].
    pub fn set_line_limit(&mut self, n: u16)
        ensures
            final(self)@.line_limit == n,
            final(self)@.letters == old(self)@.letters,
            final(self)@.cursor == old(self)@.cursor,
            final(self)@.timer == old(self)@.timer,
            final(self)@.mode == old(self)@.mode,
            final(self)@.wordlist == old(self)@.wordlist,
            final(self)@.screen == old(self)@.screen,
            final(self)@.origin == old(self)@.origin,
            final(self)@.area == old(self)@.area,
            final(self).live() == old(self).live(),
            final(self).latest() == old(self).latest(),
            old(self).wf() ==> final(self).wf(),
    {
        self.line_limit = n;
    }

    /// Routes one loop observation at instant `now_ms` and says whether the
    /// user aborted: escape aborts with nothing else changed; any other key
    /// feeds the live tracker and the letter state machine; a resize
    /// reapplies the layout; a poll timeout changes nothing.
    pub fn handle_event(&mut self, event: TestEvent, now_ms: u64) -> (aborted: bool)
        requires
            old(self).wf(),
            now_ms >= old(self).latest(),
            event matches TestEvent::Resize(w, h) ==> w >= 2 * PAD_X,
        ensures
            final(self).wf(),
            final(self).latest() <= now_ms,
            chars_of(final(self)@.letters) == chars_of(old(self)@.letters),
            final(self)@.mode == old(self)@.mode,
            final(self)@.wordlist == old(self)@.wordlist,
            final(self)@.line_limit == old(self)@.line_limit,
            aborted == (event == TestEvent::Key(Key::Esc)),
            (match event {
                TestEvent::Key(k) => if k == Key::Esc {
                    *final(self) == *old(self)
                } else {
                    &&& (final(self)@.letters, final(self)@.cursor) == spec_step_key(
                        old(self)@.letters,
                        old(self)@.cursor,
                        k,
                    )
                    &&& final(self)@.timer == (if old(self)@.timer is Some {
                        old(self)@.timer
                    } else {
                        Some(now_ms)
                    })
                    &&& final(self).live().presses() == old(self).live().presses().push(now_ms)
                    &&& final(self)@.screen == old(self)@.screen
                    &&& final(self)@.origin == old(self)@.origin
                    &&& final(self)@.area == old(self)@.area
                },
                TestEvent::Resize(w, h) => {
                    &&& final(self)@.letters == old(self)@.letters
                    &&& final(self)@.cursor == old(self)@.cursor
                    &&& final(self)@.timer == old(self)@.timer
                    &&& final(self).live() == old(self).live()
                    &&& final(self)@.screen == (w, h)
                    &&& final(self)@.origin == spec_text_origin((w, h), old(self)@.letters.len())
                    &&& final(self)@.area == spec_text_area((w, h), old(self)@.line_limit)
                },
                TestEvent::Tick => *final(self) == *old(self),
            }),
    {
        match event {
            TestEvent::Key(key) => match key {
                Key::Esc => true,
                _ => {
                    self.live_wpm.press(now_ms);
                    self.handle_key(key, now_ms);
                    false
                },
            },
            TestEvent::Resize(w, h) => {
                self.apply_screen_limits((w, h));
                false
            },
            TestEvent::Tick => false,
        }
    }

    /// Whether the run is complete at instant `now_ms`: the predicate
    /// [`spec_complete`] of the current state.
    pub fn is_complete(&self, now_ms: u64) -> (r: bool)
        requires
            self.wf(),
            now_ms >= self.latest(),
        ensures
            r == spec_complete(self@, now_ms),
    {
        match self.mode {
            TestMode::Words(_) => self.timer.is_some() && self.cursor >= self.letters.len(),
            TestMode::Time(duration) => match self.timer {
                Some(t) => now_ms - t >= duration,
                None => false,
            },
        }
    }

    /// The outcome of the run at instant `now_ms`: a score report exactly
    /// when the completion predicate holds, and no outcome otherwise — in
    /// particular after an abort, however far the run got.
    pub fn finish(&self, now_ms: u64) -> (r: Option<TestResult>)
        requires
            self.wf(),
            now_ms >= self.latest(),
        ensures
            r is Some <==> spec_complete(self@, now_ms),
            r matches Some(res) ==> spec_outcome_matches(self@, now_ms, res),
    {
        // if the test was ended early, don't give a score
        match self.mode {
            TestMode::Words(_) => {
                if self.timer.is_none() || self.cursor < self.letters.len() {
                    return None;
                }
            },
            TestMode::Time(duration) => match self.timer {
                Some(t) => if now_ms - t < duration {
                    return None;
                },
                None => {
                    return None;
                },
            },
        }
        let t0 = if let Some(t) = self.timer {
            t
        } else {
            return None;
        };
        let elapsed = now_ms - t0;
        let hits = self.count_hits();
        let misses = self.count_misses();
        let words = self.count_words();
        let typed = match self.mode {
            TestMode::Words(_) => self.letters.len(),
            TestMode::Time(_) => self.cursor,
        };
        let speeds = (wpm_gross(typed, elapsed), wpm_net(typed, misses, elapsed));
        Some(TestResult::new(words, self.wordlist, self.mode, hits, misses, elapsed, speeds))
    }

    /// Counts the words of the phrase, split on spaces.
    pub fn count_words(&self) -> (n: usize)
        ensures
            n == word_count(chars_of(self@.letters)),
    {
        let ghost cs = chars_of(self@.letters);
        let mut words: usize = 0;
        let mut at_boundary: bool = true;
        let mut i: usize = 0;
        while i < self.letters.len()
            invariant
                0 <= i <= self@.letters.len(),
                cs == chars_of(self@.letters),
                cs.len() == self@.letters.len(),
                words <= i,
                words == word_count(cs.take(i as int)),
                at_boundary == (i == 0 || cs[i as int - 1] == ' '),
            decreases self@.letters.len() - i,
        {
            let c = self.letters[i].character();
            proof {
                assert(cs[i as int] == self@.letters[i as int].spec_char());
            }
            if c != ' ' && at_boundary {
                words += 1;
            }
            at_boundary = c == ' ';
            proof {
                assert(cs.take(i + 1 as int).drop_last() =~= cs.take(i as int));
            }
            i += 1;
        }
        proof {
            assert(cs.take(cs.len() as int) =~= cs);
        }
        words
    }

    /// The live speed at instant `now_ms`, in centi-WPM: hands the query to
    /// the session's tracker, whose cache and purge behavior is stated on
    /// [`LiveWPM::wpm`]. Nothing else of the session changes.
    pub fn live_speed(&mut self, now_ms: u64) -> (r: u32)
        requires
            old(self).wf(),
            now_ms >= old(self).latest(),
        ensures
            final(self).wf(),
            final(self).latest() <= now_ms,
            final(self)@ == old(self)@,
            old(self).live().presses().len() == 0 ==> r == 0 && final(self).live() == old(self).live(),
            old(self).live().presses().len() > 0 && now_ms - old(self).live().last_query()
                < crate::live_wpm::WINDOW_MS ==> r == old(self).live().cached()
                && final(self).live() == old(self).live(),
            old(self).live().presses().len() > 0 && now_ms - old(self).live().last_query()
                >= crate::live_wpm::WINDOW_MS ==> {
                &&& final(self).live().presses() == crate::live_wpm::window_filter(
                    old(self).live().presses(),
                    now_ms,
                )
                &&& r == spec_wpm_gross(
                    crate::live_wpm::window_filter(old(self).live().presses(), now_ms).len(),
                    crate::live_wpm::WINDOW_MS as nat,
                )
            },
    {
        self.live_wpm.wpm(now_ms)
    }

    /// How many letters fit in the textbox before rendering is cut off:
    /// one full line per configured line, at the applied width.
    pub fn textbox_capacity(&self) -> (n: usize)
        ensures
            n == self@.area.0 as int * self@.area.1 as int,
    {
        proof {
            assert((self.text_limit.1.0 as int) * (self.text_limit.1.1 as int) <= 65535int
                * 65535int) by (nonlinear_arith)
                requires
                    self.text_limit.1.0 <= 65535,
                    self.text_limit.1.1 <= 65535,
            ;
        }
        (self.text_limit.1.0 as usize) * (self.text_limit.1.1 as usize)
    }

    /// True when the phrase does not fit the textbox, so that a truncation
    /// marker stands in for the letters past its capacity.
    pub fn truncated(&self) -> (r: bool)
        ensures
            r == (self@.letters.len() > self@.area.0 as int * self@.area.1 as int),
    {
        self.letters.len() > self.textbox_capacity()
    }

    /// The absolute cell at which letter `idx` renders: the textbox origin
    /// plus the wrapped position within lines of the applied width.
    pub fn letter_cell(&self, idx: usize) -> (cell: (u32, u32))
        requires
            self@.area.0 > 0,
            idx < self@.area.0 as int * self@.area.1 as int,
        ensures
            cell.0 == self@.origin.0 + idx as int % self@.area.0 as int,
            cell.1 == self@.origin.1 + idx as int / self@.area.0 as int,
    {
        let width = self.text_limit.1.0 as usize;
        proof {
            assert(idx as int / (self.text_limit.1.0 as int) < self.text_limit.1.1 as int)
                by (nonlinear_arith)
                requires
                    idx < (self.text_limit.1.0 as int) * (self.text_limit.1.1 as int),
                    self.text_limit.1.0 > 0,
            ;
        }
        let col = (idx % width) as u32;
        let row = (idx / width) as u32;
        ((self.text_limit.0.0 as u32) + col, (self.text_limit.0.1 as u32) + row)
    }

    /// The absolute cell where the truncation marker renders: horizontally
    /// centered, one row below the last textbox line.
    pub fn truncation_cell(&self) -> (cell: (u32, u32))
        ensures
            cell.0 == self@.screen.0 as int / 2,
            cell.1 == self@.origin.1 + self@.area.1 as int,
    {
        ((self.screen_size.0 / 2) as u32, (self.text_limit.0.1 as u32) + (self.text_limit.1.1
            as u32))
    }

    /// The cursor position.
    pub fn cursor(&self) -> (c: usize)
        ensures
            c == self@.cursor,
    {
        self.cursor
    }

    /// The phrase length, in letters.
    pub fn len(&self) -> (n: usize)
        ensures
            n == self@.letters.len(),
    {
        self.letters.len()
    }

    /// The letter at index `i`.
    pub fn letter(&self, i: usize) -> (l: Letter)
        requires
            i < self@.letters.len(),
        ensures
            l == self@.letters[i as int],
    {
        self.letters[i]
    }

    /// The mode of this run.
    pub fn mode(&self) -> (m: TestMode)
        ensures
            m == self@.mode,
    {
        self.mode
    }

    /// The wordlist the phrase was drawn from.
    pub fn wordlist(&self) -> (w: Wordlist)
        ensures
            w == self@.wordlist,
    {
        self.wordlist
    }

    /// The instant of the first handled key, if any key was handled yet.
    pub fn timer_start(&self) -> (t: Option<u64>)
        ensures
            t == self@.timer,
    {
        self.timer
    }

    /// The viewport size last applied.
    pub fn screen_size(&self) -> (s: (u16, u16))
        ensures
            s == self@.screen,
    {
        self.screen_size
    }

    /// The textbox origin of the applied layout.
    pub fn text_origin(&self) -> (o: (u16, u16))
        ensures
            o == self@.origin,
    {
        self.text_limit.0
    }

    /// The textbox area, `(line_width, line_count)`, of the applied layout.
    pub fn text_area(&self) -> (a: (u16, u16))
        ensures
            a == self@.area,
    {
        self.text_limit.1
    }

    /// Counts the letters currently marked `Hit`.
    pub fn count_hits(&self) -> (n: usize)
        ensures
            n == hit_count(self@.letters),
    {
        let mut hits: usize = 0;
        let mut i: usize = 0;
        while i < self.letters.len()
            invariant
                0 <= i <= self@.letters.len(),
                hits <= i,
                hits == hit_count(self@.letters.take(i as int)),
            decreases self@.letters.len() - i,
        {
            if let Letter::Hit(_) = self.letters[i] {
                hits += 1;
            }
            proof {
                assert(self@.letters.take(i + 1 as int).drop_last() =~= self@.letters.take(
                    i as int,
                ));
            }
            i += 1;
        }
        proof {
            assert(self@.letters.take(self@.letters.len() as int) =~= self@.letters);
        }
        hits
    }

    /// Counts the letters currently marked `Miss`.
    pub fn count_misses(&self) -> (n: usize)
        ensures
            n == miss_count(self@.letters),
    {
        let mut misses: usize = 0;
        let mut i: usize = 0;
        while i < self.letters.len()
            invariant
                0 <= i <= self@.letters.len(),
                misses <= i,
                misses == miss_count(self@.letters.take(i as int)),
            decreases self@.letters.len() - i,
        {
            if let Letter::Miss(_) = self.letters[i] {
                misses += 1;
            }
            proof {
                assert(self@.letters.take(i + 1 as int).drop_last() =~= self@.letters.take(
                    i as int,
                ));
            }
            i += 1;
        }
        proof {
            assert(self@.letters.take(self@.letters.len() as int) =~= self@.letters);
        }
        misses
    }
}

} // verus!
