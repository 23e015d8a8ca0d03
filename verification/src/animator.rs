//! The text animator: a line of dialogue revealed one character at a time,
//! and the split of a revealed text into the panes of the display.

use crate::text::{chars_of, string_of, subvec, trim, trimmed};
use vstd::prelude::*;

verus! {

/// The token that starts a new pane of narration. It is revealed as one unit.
pub open spec fn nns() -> Seq<char> {
    seq!['{', 'n', 'n', 's', '}']
}

/// Number of characters of the token.
pub const TOKEN_LEN: usize = 5;

/// Whether the token stands at position `i` of `text`.
pub open spec fn token_at(text: Seq<char>, i: int) -> bool {
    0 <= i && i + TOKEN_LEN <= text.len() && text.subrange(i, i + TOKEN_LEN) == nns()
}

/// Position of the first token of `s`, or `s.len()` when it holds none.
pub open spec fn find_token(s: Seq<char>) -> int
    decreases s.len(),
{
    if s.len() == 0 {
        0
    } else if token_at(s, 0) {
        0
    } else {
        1 + find_token(s.drop_first())
    }
}

/// The parts of `s` between its tokens; never empty.
pub open spec fn split_token(s: Seq<char>) -> Seq<Seq<char>>
    decreases s.len(),
{
    let i = find_token(s);
    if 0 <= i && i + TOKEN_LEN <= s.len() {
        seq![s.take(i)] + split_token(s.skip(i + TOKEN_LEN))
    } else {
        seq![s]
    }
}

/// The three panes of a text: its first three parts between tokens, each
/// trimmed; a part that the text does not have is empty.
pub open spec fn segments(s: Seq<char>) -> (Seq<char>, Seq<char>, Seq<char>) {
    let parts = split_token(s);
    (
        trim(parts[0]),
        if parts.len() > 1 {
            trim(parts[1])
        } else {
            Seq::empty()
        },
        if parts.len() > 2 {
            trim(parts[2])
        } else {
            Seq::empty()
        },
    )
}

/// A text under reveal.
#[derive(Debug)]
pub struct DisplayText {
    /// The whole line.
    pub full_text: String,
    /// The pause between two characters, in milliseconds; 0 shows the line at once.
    pub speed: u64,
    /// Number of characters revealed so far.
    pub current_index: usize,
    /// Whether the reveal is under way.
    pub is_running: bool,
}

/// Mathematical model of a [`DisplayText`].
pub ghost struct DisplayTextView {
    pub full_text: Seq<char>,
    pub speed: nat,
    pub current_index: nat,
    pub is_running: bool,
}

impl View for DisplayText {
    type V = DisplayTextView;

    open spec fn view(&self) -> DisplayTextView {
        DisplayTextView {
            full_text: self.full_text@,
            speed: self.speed as nat,
            current_index: self.current_index as nat,
            is_running: self.is_running,
        }
    }
}

impl DisplayTextView {
    /// The animator at rest, without text.
    pub open spec fn idle() -> DisplayTextView {
        DisplayTextView { full_text: Seq::empty(), speed: 0, current_index: 0, is_running: false }
    }

    /// The animator at the start of the reveal of `text`.
    pub open spec fn started(text: Seq<char>, speed: nat) -> DisplayTextView {
        DisplayTextView { full_text: text, speed, current_index: 0, is_running: true }
    }

    /// The animator after a request to finish the line: only the last
    /// character is left to reveal.
    pub open spec fn ended(self) -> DisplayTextView {
        DisplayTextView {
            current_index: if self.full_text.len() > 0 {
                (self.full_text.len() - 1) as nat
            } else {
                0
            },
            ..self
        }
    }

    /// One step of the reveal: the state after it and the text that it
    /// publishes. A token under the cursor is passed over first; then one
    /// more character is revealed, and the text up to it is published. At
    /// the end of the text the reveal stops and nothing is published.
    pub open spec fn next(self) -> (DisplayTextView, Option<Seq<char>>) {
        let len = self.full_text.len();
        if !self.is_running {
            (self, None)
        } else if self.current_index >= len {
            (DisplayTextView { is_running: false, ..self }, None)
        } else {
            let at = if token_at(self.full_text, self.current_index as int) {
                self.current_index + TOKEN_LEN
            } else {
                self.current_index as int
            };
            let upto = if at + 1 <= len {
                at + 1
            } else {
                len as int
            };
            (
                DisplayTextView { current_index: upto as nat, ..self },
                Some(self.full_text.take(upto)),
            )
        }
    }

    /// One turn of the task that publishes the text: at speed 0 the whole
    /// line at once, which ends the reveal; else one step of the reveal.
    pub open spec fn polled(self) -> (DisplayTextView, Option<Seq<char>>) {
        if self.speed == 0 {
            if self.is_running {
                (DisplayTextView { is_running: false, ..self }, Some(self.full_text))
            } else {
                (self, None)
            }
        } else {
            self.next()
        }
    }

    /// The state after `n` turns of the publishing task.
    pub open spec fn after(self, n: nat) -> DisplayTextView
        decreases n,
    {
        if n == 0 {
            self
        } else {
            self.after((n - 1) as nat).polled().0
        }
    }
}

impl DisplayText {
    /// An animator at rest, without text.
    pub fn new() -> (r: Self)
        ensures
            r@ == DisplayTextView::idle(),
    {
        Self { full_text: String::new(), speed: 0, current_index: 0, is_running: false }
    }

    /// Starts the reveal of `text`, with `speed` milliseconds between two characters.
    pub fn start_animation(&mut self, text: String, speed: u64)
        ensures
            final(self)@ == DisplayTextView::started(text@, speed as nat),
    {
        self.full_text = text;
        self.speed = speed;
        self.current_index = 0;
        self.is_running = true;
    }

    /// Asks for the line to be finished: the next step reveals it whole.
    pub fn end(&mut self)
        ensures
            final(self)@ == old(self)@.ended(),
    {
        let chars = chars_of(self.full_text.as_str());
        self.current_index = chars.len().saturating_sub(1);
    }

    /// One step of the reveal; returns the text to publish.
    pub fn next_character(&mut self) -> (r: Option<String>)
        ensures
            final(self)@ == old(self)@.next().0,
            r.deep_view() == old(self)@.next().1,
    {
        if !self.is_running {
            return None;
        }
        let chars = chars_of(self.full_text.as_str());
        let len = chars.len();
        if self.current_index >= len {
            self.is_running = false;
            return None;
        }
        let at = if is_token_at(&chars, self.current_index) {
            self.current_index + TOKEN_LEN
        } else {
            self.current_index
        };
        let upto = if at < len {
            at + 1
        } else {
            len
        };
        let shown = subvec(&chars, 0, upto);
        assert(shown@ =~= chars@.take(upto as int));
        self.current_index = upto;
        Some(string_of(&shown))
    }

    /// One turn of the task that publishes the text; returns the text to publish.
    pub fn poll(&mut self) -> (r: Option<String>)
        ensures
            final(self)@ == old(self)@.polled().0,
            r.deep_view() == old(self)@.polled().1,
    {
        if self.speed == 0 {
            if self.is_running {
                self.is_running = false;
                Some(self.full_text.clone())
            } else {
                None
            }
        } else {
            self.next_character()
        }
    }
}

/// Whether the token stands at position `i` of `v`.
pub fn is_token_at(v: &Vec<char>, i: usize) -> (r: bool)
    ensures
        r == token_at(v@, i as int),
{
    let n = v.len();
    if n < TOKEN_LEN || i > n - TOKEN_LEN {
        return false;
    }
    let r = v[i] == '{' && v[i + 1] == 'n' && v[i + 2] == 'n' && v[i + 3] == 's' && v[i + 4]
        == '}';
    proof {
        let part = v@.subrange(i as int, i + TOKEN_LEN);
        if r {
            assert(part =~= nns());
        } else {
            assert(part[0] == v@[i as int]);
            assert(part[1] == v@[i + 1]);
            assert(part[2] == v@[i + 2]);
            assert(part[3] == v@[i + 3]);
            assert(part[4] == v@[i + 4]);
        }
    }
    r
}

proof fn lemma_token_shift(s: Seq<char>, k: int, j: int)
    requires
        0 <= k <= s.len(),
        0 <= j,
    ensures
        token_at(s.skip(k), j) == token_at(s, j + k),
{
    if j + TOKEN_LEN <= s.len() - k {
        assert(s.skip(k).subrange(j, j + TOKEN_LEN) =~= s.subrange(j + k, j + k + TOKEN_LEN));
    }
}

proof fn lemma_find_token_is(s: Seq<char>, i: int)
    requires
        0 <= i <= s.len(),
        forall|j: int| 0 <= j < i ==> !token_at(s, j),
        i < s.len() ==> token_at(s, i),
    ensures
        find_token(s) == i,
    decreases i,
{
    if i > 0 {
        let t = s.drop_first();
        assert(!token_at(s, 0));
        assert forall|j: int| 0 <= j < i - 1 implies !token_at(t, j) by {
            lemma_token_shift(s, 1, j);
        }
        if i < s.len() {
            lemma_token_shift(s, 1, i - 1);
        }
        lemma_find_token_is(t, i - 1);
    }
}

/// The views of the vectors in `parts`.
pub open spec fn pieces(parts: Seq<Vec<char>>) -> Seq<Seq<char>> {
    Seq::new(parts.len(), |i: int| parts[i]@)
}

/// The parts of `v` between its tokens.
pub fn split_at_token(v: &Vec<char>) -> (parts: Vec<Vec<char>>)
    ensures
        pieces(parts@) == split_token(v@),
        parts.len() >= 1,
{
    let mut parts: Vec<Vec<char>> = Vec::new();
    let mut start: usize = 0;
    let n = v.len();
    proof {
        assert(v@.skip(0) =~= v@);
        assert(pieces(parts@) + split_token(v@) =~= split_token(v@));
    }
    loop
        invariant_except_break
            split_token(v@) == pieces(parts@) + split_token(v@.skip(start as int)),
        invariant
            start <= n,
            n == v.len(),
        ensures
            pieces(parts@) == split_token(v@),
            parts.len() >= 1,
        decreases n - start,
    {
        let mut i: usize = start;
        while i < n && !is_token_at(v, i)
            invariant
                start <= i <= n,
                n == v.len(),
                forall|j: int| start <= j < i ==> !token_at(v@, j),
            decreases n - i,
        {
            i += 1;
        }
        let piece = subvec(v, start, i);
        proof {
            let rest = v@.skip(start as int);
            assert forall|j: int| 0 <= j < i - start implies !token_at(rest, j) by {
                lemma_token_shift(v@, start as int, j);
            }
            if i < n {
                lemma_token_shift(v@, start as int, i - start);
            }
            lemma_find_token_is(rest, i - start);
            assert(piece@ =~= rest.take(i - start));
            assert(pieces(parts@.push(piece)) =~= pieces(parts@) + seq![piece@]);
            if i < n {
                assert(rest.skip(i - start + TOKEN_LEN) =~= v@.skip(i + TOKEN_LEN));
            } else {
                assert(rest.take(i - start) =~= rest);
            }
        }
        parts.push(piece);
        if i < n {
            start = i + TOKEN_LEN;
        } else {
            break ;
        }
    }
    parts
}

/// The three panes of `text`.
pub fn split_segments(text: &str) -> (r: (String, String, String))
    ensures
        (r.0@, r.1@, r.2@) == segments(text@),
{
    let chars = chars_of(text);
    let parts = split_at_token(&chars);
    assert(forall|k: int| 0 <= k < parts.len() ==> pieces(parts@)[k] == parts@[k]@);
    let first = string_of(&trimmed(&parts[0]));
    let second = if parts.len() > 1 {
        string_of(&trimmed(&parts[1]))
    } else {
        String::new()
    };
    let third = if parts.len() > 2 {
        string_of(&trimmed(&parts[2]))
    } else {
        String::new()
    };
    (first, second, third)
}

/// Whether `text` holds no token.
pub open spec fn plain(text: Seq<char>) -> bool {
    forall|i: int| !token_at(text, i)
}

/// A text without tokens, started at a speed above 0, is revealed one
/// character at a time: after `k` turns, `k` characters are revealed and the
/// reveal is still under way.
pub proof fn lemma_reveal_progress(text: Seq<char>, speed: nat, k: nat)
    requires
        speed > 0,
        plain(text),
        k <= text.len(),
    ensures
        DisplayTextView::started(text, speed).after(k) == (DisplayTextView {
            current_index: k,
            ..DisplayTextView::started(text, speed)
        }),
    decreases k,
{
    if k > 0 {
        lemma_reveal_progress(text, speed, (k - 1) as nat);
        assert(!token_at(text, k - 1));
    }
}

/// A text without tokens, started at a speed above 0, is published prefix by
/// prefix: turn `k` publishes the first `k` characters, for `k` from 1 to the
/// length of the text.
pub proof fn lemma_reveal_prefixes(text: Seq<char>, speed: nat, k: nat)
    requires
        speed > 0,
        plain(text),
        1 <= k <= text.len(),
    ensures
        DisplayTextView::started(text, speed).after((k - 1) as nat).polled().1 == Some(
            text.take(k as int),
        ),
        DisplayTextView::started(text, speed).after(k).is_running,
{
    lemma_reveal_progress(text, speed, (k - 1) as nat);
    lemma_reveal_progress(text, speed, k);
    assert(!token_at(text, k - 1));
}

/// After its last character is published, the next turn publishes nothing
/// and ends the reveal.
pub proof fn lemma_reveal_stops(text: Seq<char>, speed: nat)
    requires
        speed > 0,
        plain(text),
    ensures
        DisplayTextView::started(text, speed).after(text.len()).polled().1 is None,
        !DisplayTextView::started(text, speed).after(text.len() + 1).is_running,
{
    lemma_reveal_progress(text, speed, text.len());
}

/// A request to finish the line, at any point of a reveal under way, makes
/// the next turn publish the whole line; the turn after it publishes nothing
/// and ends the reveal, unless the first has ended it already.
pub proof fn lemma_end_shows_all(s: DisplayTextView)
    requires
        s.is_running,
        s.full_text.len() > 0,
    ensures
        s.ended().polled().1 == Some(s.full_text),
        s.ended().polled().0.polled().1 is None,
        !s.ended().polled().0.polled().0.is_running,
{
    let len = s.full_text.len() as int;
    let e = s.ended();
    assert(!token_at(s.full_text, len - 1));
    assert(s.full_text.take(len) =~= s.full_text);
}

} // verus!
