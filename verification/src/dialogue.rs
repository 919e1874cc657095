//! Styled dialogue text and the incremental reveal state machine.
//!
//! A dialogue is an ordered list of styled lines. Revealing is driven by an
//! external tick loop that feeds one advance signal per frame: line zero is
//! visible from the start, and each `NextChar` signal reveals one character
//! of the current line, with a fixed pause of ticks between lines.
use crate::textfmt::dec_digits;
use crate::textfmt::num_string;
use vstd::prelude::*;
use vstd::string::StringExecFns;

verus! {

/// The fixed colors dialogue text is drawn in; the renderer maps them to
/// actual color values.
#[derive(Copy, Clone, Debug, PartialEq, Eq, Structural)]
pub enum TextColor {
    White,
    Red,
    Yellow,
    DarkGreen,
}

/// The styling of a line: plain text, emphasized ("big"), or animated
/// ("jiggle"). The animation itself is presentation only.
#[derive(Copy, Clone, Debug, PartialEq, Eq, Structural)]
pub enum LineKind {
    Big,
    Plain,
    Jiggle,
}

/// One styled span of dialogue text.
pub enum Line {
    BigText { text: String, color: TextColor },
    Text { text: String, color: TextColor },
    Jiggle { text: String, color: TextColor },
}

/// The mathematical value of a [`Line`]: styling, characters, color.
#[verifier::ext_equal]
pub struct LineV {
    pub kind: LineKind,
    pub text: Seq<char>,
    pub color: TextColor,
}

impl View for Line {
    type V = LineV;

    open spec fn view(&self) -> LineV {
        match self {
            Line::BigText { text, color } => LineV { kind: LineKind::Big, text: text@, color: *color },
            Line::Text { text, color } => LineV { kind: LineKind::Plain, text: text@, color: *color },
            Line::Jiggle { text, color } => LineV {
                kind: LineKind::Jiggle,
                text: text@,
                color: *color,
            },
        }
    }
}

impl Line {
    /// The characters of the line, whatever its styling.
    pub fn str(&self) -> (r: &str)
        ensures
            r@ == self@.text,
    {
        match self {
            Line::BigText { text, color } => text.as_str(),
            Line::Text { text, color } => text.as_str(),
            Line::Jiggle { text, color } => text.as_str(),
        }
    }

    /// An identical copy of the line.
    pub fn duplicate(&self) -> (r: Line)
        ensures
            r@ == self@,
    {
        match self {
            Line::BigText { text, color } => Line::BigText { text: text.clone(), color: *color },
            Line::Text { text, color } => Line::Text { text: text.clone(), color: *color },
            Line::Jiggle { text, color } => Line::Jiggle { text: text.clone(), color: *color },
        }
    }

    /// The same line recolored.
    pub fn recolored(&self, color: TextColor) -> (r: Line)
        ensures
            r@ == (LineV { color, ..self@ }),
    {
        match self {
            Line::BigText { text, color: _ } => Line::BigText { text: text.clone(), color },
            Line::Text { text, color: _ } => Line::Text { text: text.clone(), color },
            Line::Jiggle { text, color: _ } => Line::Jiggle { text: text.clone(), color },
        }
    }
}

/// A plain line value.
pub open spec fn plain(text: Seq<char>, color: TextColor) -> LineV {
    LineV { kind: LineKind::Plain, text, color }
}

/// An emphasized line value.
pub open spec fn big(text: Seq<char>, color: TextColor) -> LineV {
    LineV { kind: LineKind::Big, text, color }
}

/// An animated line value.
pub open spec fn jiggle(text: Seq<char>, color: TextColor) -> LineV {
    LineV { kind: LineKind::Jiggle, text, color }
}

/// The day header line a dialogue page starts with.
pub open spec fn page_line(page: int) -> LineV {
    big("Page "@ + dec_digits(page), TextColor::White)
}

/// An ordered, append-only list of styled lines.
pub struct Dialogue {
    lines: Vec<Line>,
}

impl View for Dialogue {
    type V = Seq<LineV>;

    closed spec fn view(&self) -> Seq<LineV> {
        self.lines@.map_values(|l: Line| l@)
    }
}

impl Dialogue {
    /// An empty dialogue.
    pub fn new() -> (d: Dialogue)
        ensures
            d@ =~= Seq::<LineV>::empty(),
    {
        Dialogue { lines: Vec::new() }
    }

    /// Number of lines.
    pub fn len(&self) -> (n: usize)
        ensures
            n == self@.len(),
    {
        self.lines.len()
    }

    /// The line at `i`.
    pub fn line(&self, i: usize) -> (l: &Line)
        requires
            i < self@.len(),
        ensures
            l@ == self@[i as int],
    {
        &self.lines[i]
    }

    /// The number of characters of the line at `i`.
    pub fn line_len(&self, i: usize) -> (n: usize)
        requires
            i < self@.len(),
        ensures
            n == self@[i as int].text.len(),
    {
        self.lines[i].str().unicode_len()
    }

    /// Append a prebuilt line.
    pub fn push_line(&mut self, line: Line)
        ensures
            final(self)@ =~= old(self)@.push(line@),
    {
        self.lines.push(line);
    }

    /// Recolor the line at `i`, keeping its text and styling.
    pub fn set_line_color(&mut self, i: usize, color: TextColor)
        requires
            i < old(self)@.len(),
        ensures
            final(self)@ =~= old(self)@.update(i as int, (LineV { color, ..old(self)@[i as int] })),
    {
        let recolored = self.lines[i].recolored(color);
        self.lines[i] = recolored;
    }

    /// Append a plain line in the given color.
    pub fn color_text(&mut self, text: &str, color: TextColor)
        ensures
            final(self)@ =~= old(self)@.push(plain(text@, color)),
    {
        self.lines.push(Line::Text { text: text.to_owned(), color });
    }

    /// Append a plain white line.
    pub fn text(&mut self, text: &str)
        ensures
            final(self)@ =~= old(self)@.push(plain(text@, TextColor::White)),
    {
        self.color_text(text, TextColor::White);
    }

    /// Append an emphasized line in the given color.
    pub fn big_color_text(&mut self, text: &str, color: TextColor)
        ensures
            final(self)@ =~= old(self)@.push(big(text@, color)),
    {
        self.lines.push(Line::BigText { text: text.to_owned(), color });
    }

    /// Append an emphasized white line.
    pub fn big_text(&mut self, text: &str)
        ensures
            final(self)@ =~= old(self)@.push(big(text@, TextColor::White)),
    {
        self.big_color_text(text, TextColor::White);
    }

    /// Append an animated line in the given color.
    pub fn jiggle_color_text(&mut self, text: &str, color: TextColor)
        ensures
            final(self)@ =~= old(self)@.push(jiggle(text@, color)),
    {
        self.lines.push(Line::Jiggle { text: text.to_owned(), color });
    }

    /// Append an animated white line.
    pub fn jiggle_text(&mut self, text: &str)
        ensures
            final(self)@ =~= old(self)@.push(jiggle(text@, TextColor::White)),
    {
        self.jiggle_color_text(text, TextColor::White);
    }

    /// Append the day header of diary page `page`.
    pub fn page(&mut self, page: u32)
        ensures
            final(self)@ =~= old(self)@.push(page_line(page as int)),
    {
        let mut s = String::from_str("Page ");
        let digits = num_string(page as u64);
        s.append(digits.as_str());
        self.lines.push(Line::BigText { text: s, color: TextColor::White });
    }
}

/// Ticks a finished line holds the reveal before the next line's first
/// character shows.
pub const PAUSE_TICKS: u32 = 20;

/// One advance signal from the tick loop.
#[derive(Copy, Clone, Debug, PartialEq, Eq, Structural)]
pub enum Event {
    Done,
    ShowText,
    Idle,
    NextChar,
}

/// The mathematical reveal position of a running dialogue: the line being
/// typed, how many of its characters are visible, the ticks left of the
/// between-line pause, and whether the run has been ended.
pub struct RevealState {
    pub line_idx: int,
    pub char_idx: int,
    pub pause: int,
    pub finished: bool,
}

/// Ticks needed to finish typing a line from its start: one per character,
/// and one for an empty line (reaching the end of an empty line still
/// consumes a tick).
pub open spec fn line_cost(l: LineV) -> int {
    if l.text.len() == 0 {
        1
    } else {
        l.text.len() as int
    }
}

/// Ticks needed for all lines from `i` on, each preceded by the
/// between-line pause.
pub open spec fn rest_cost(lines: Seq<LineV>, i: int) -> int
    decreases lines.len() - i,
{
    if i < 0 || i >= lines.len() {
        0
    } else {
        PAUSE_TICKS + line_cost(lines[i]) + rest_cost(lines, i + 1)
    }
}

proof fn lemma_rest_cost_nonneg(lines: Seq<LineV>, i: int)
    ensures
        rest_cost(lines, i) >= 0,
    decreases lines.len() - i,
{
    if 0 <= i < lines.len() {
        lemma_rest_cost_nonneg(lines, i + 1);
    }
}

/// Whether every character of every line is visible at `st`.
pub open spec fn all_visible(lines: Seq<LineV>, st: RevealState) -> bool {
    lines.len() <= st.line_idx
}

/// The reveal-state invariant: counters non-negative, and while typing,
/// the visible-character counter stays below the current line's tick cost.
pub open spec fn reveal_wf(lines: Seq<LineV>, st: RevealState) -> bool {
    &&& st.char_idx >= 0
    &&& st.pause >= 0
    &&& st.line_idx >= 0
    &&& st.line_idx < lines.len() ==> st.char_idx < line_cost(lines[st.line_idx])
}

/// The reveal state after consuming one advance signal: `Done` marks the
/// run finished, `ShowText` reveals everything at once, `Idle` does
/// nothing, and `NextChar` reveals one character, moving to the next line
/// (behind a fixed pause) when the current one is done.
pub open spec fn spec_advance(lines: Seq<LineV>, st: RevealState, ev: Event) -> RevealState {
    match ev {
        Event::Done => RevealState { finished: true, ..st },
        Event::ShowText => RevealState { line_idx: lines.len() as int, ..st },
        Event::Idle => st,
        Event::NextChar => {
            if st.line_idx < lines.len() {
                if st.pause == 0 {
                    if st.char_idx + 1 >= lines[st.line_idx].text.len() {
                        RevealState {
                            char_idx: 0,
                            line_idx: st.line_idx + 1,
                            pause: PAUSE_TICKS as int,
                            ..st
                        }
                    } else {
                        RevealState { char_idx: st.char_idx + 1, ..st }
                    }
                } else {
                    RevealState { pause: st.pause - 1, ..st }
                }
            } else {
                st
            }
        },
    }
}

/// A dialogue in the middle of being revealed. Line zero is fully visible
/// from the start; `line_idx` is the line currently being typed,
/// `char_idx` how many of its characters are visible, and `pause` the
/// ticks left of the hold between lines.
pub struct DialogueRun {
    pub dialogue: Dialogue,
    pub line_idx: usize,
    pub char_idx: usize,
    pub pause: u32,
    pub finished: bool,
}

impl DialogueRun {
    /// The reveal position as a mathematical state.
    pub open spec fn st(&self) -> RevealState {
        RevealState {
            line_idx: self.line_idx as int,
            char_idx: self.char_idx as int,
            pause: self.pause as int,
            finished: self.finished,
        }
    }

    /// The run invariant.
    pub open spec fn wf(&self) -> bool {
        reveal_wf(self.dialogue@, self.st())
    }

    /// Whether every character of every line is visible.
    pub open spec fn spec_all_visible(&self) -> bool {
        all_visible(self.dialogue@, self.st())
    }

    /// Start revealing a dialogue: line zero is already visible, typing
    /// begins on line one.
    pub fn new(dialogue: Dialogue) -> (r: DialogueRun)
        ensures
            r.dialogue@ == dialogue@,
            r.st() == (RevealState { line_idx: 1, char_idx: 0, pause: 0, finished: false }),
            r.wf(),
    {
        DialogueRun { dialogue, line_idx: 1, char_idx: 0, pause: 0, finished: false }
    }

    /// Whether every character of every line is visible.
    pub fn is_all_visible(&self) -> (r: bool)
        ensures
            r == self.spec_all_visible(),
    {
        self.dialogue.len() <= self.line_idx
    }

    /// Consume one advance signal. (Only the character counter bound is
    /// needed here: a prompt may append lines mid-run, which can leave the
    /// counter at or past the new current line's length; the machine then
    /// simply finishes that line on the next signal.)
    pub fn advance(&mut self, ev: Event)
        requires
            old(self).char_idx < usize::MAX,
        ensures
            final(self).dialogue@ == old(self).dialogue@,
            final(self).st() == spec_advance(old(self).dialogue@, old(self).st(), ev),
            final(self).char_idx < usize::MAX,
    {
        match ev {
            Event::Done => {
                self.finished = true;
            },
            Event::ShowText => {
                self.line_idx = self.dialogue.len();
            },
            Event::Idle => {},
            Event::NextChar => {
                if self.line_idx < self.dialogue.len() {
                    if self.pause == 0 {
                        let len = self.dialogue.line_len(self.line_idx);
                        self.char_idx += 1;
                        if self.char_idx >= len {
                            self.char_idx = 0;
                            self.line_idx += 1;
                            self.pause = PAUSE_TICKS;
                        }
                    } else {
                        self.pause -= 1;
                    }
                }
            },
        }
    }
}

/// Ticks of `NextChar` needed until everything is visible: the pause in
/// progress, the rest of the current line, and every following line with
/// its leading pause.
pub open spec fn remaining_ticks(lines: Seq<LineV>, st: RevealState) -> int {
    if all_visible(lines, st) {
        0
    } else {
        st.pause + (line_cost(lines[st.line_idx]) - st.char_idx) + rest_cost(lines, st.line_idx + 1)
    }
}

/// The state after `k` consecutive `NextChar` signals.
pub open spec fn run_next_chars(lines: Seq<LineV>, st: RevealState, k: nat) -> RevealState
    decreases k,
{
    if k == 0 {
        st
    } else {
        run_next_chars(lines, spec_advance(lines, st, Event::NextChar), (k - 1) as nat)
    }
}

/// Everything is visible exactly when no reveal ticks remain.
pub proof fn lemma_visible_iff_no_ticks(lines: Seq<LineV>, st: RevealState)
    requires
        reveal_wf(lines, st),
    ensures
        all_visible(lines, st) <==> remaining_ticks(lines, st) == 0,
        remaining_ticks(lines, st) >= 0,
{
    if !all_visible(lines, st) {
        lemma_rest_cost_nonneg(lines, st.line_idx + 1);
    }
}

/// Each `NextChar` while text is still hidden consumes exactly one reveal
/// tick and keeps the state well formed.
pub proof fn lemma_next_char_progress(lines: Seq<LineV>, st: RevealState)
    requires
        reveal_wf(lines, st),
        !all_visible(lines, st),
    ensures
        reveal_wf(lines, spec_advance(lines, st, Event::NextChar)),
        remaining_ticks(lines, spec_advance(lines, st, Event::NextChar)) == remaining_ticks(
            lines,
            st,
        ) - 1,
{
    let st2 = spec_advance(lines, st, Event::NextChar);
    if st.pause == 0 {
        if st.char_idx + 1 >= lines[st.line_idx].text.len() {
            assert(line_cost(lines[st.line_idx]) - st.char_idx == 1);
            if !all_visible(lines, st2) {
                assert(rest_cost(lines, st.line_idx + 1) == PAUSE_TICKS + line_cost(
                    lines[st.line_idx + 1],
                ) + rest_cost(lines, st.line_idx + 2));
            } else {
                lemma_rest_cost_nonneg(lines, st.line_idx + 1);
                assert(rest_cost(lines, st.line_idx + 1) == 0);
            }
        }
    }
}

/// After `m` of the ticks still needed, exactly `m` fewer remain.
pub proof fn lemma_run_remaining(lines: Seq<LineV>, st: RevealState, m: nat)
    requires
        reveal_wf(lines, st),
        m <= remaining_ticks(lines, st),
    ensures
        reveal_wf(lines, run_next_chars(lines, st, m)),
        remaining_ticks(lines, run_next_chars(lines, st, m)) == remaining_ticks(lines, st) - m,
    decreases m,
{
    if m > 0 {
        lemma_visible_iff_no_ticks(lines, st);
        lemma_next_char_progress(lines, st);
        lemma_run_remaining(lines, spec_advance(lines, st, Event::NextChar), (m - 1) as nat);
    }
}

/// The reveal count law: from any well-formed state, after exactly
/// `remaining_ticks` many `NextChar` signals (each line's characters plus
/// the fixed per-line pauses) everything is visible, and after any fewer
/// it is not.
pub proof fn lemma_reveal_exact(lines: Seq<LineV>, st: RevealState)
    requires
        reveal_wf(lines, st),
    ensures
        all_visible(lines, run_next_chars(lines, st, remaining_ticks(lines, st) as nat)),
        forall|m: nat|
            m < remaining_ticks(lines, st) ==> !all_visible(
                lines,
                #[trigger] run_next_chars(lines, st, m),
            ),
{
    lemma_visible_iff_no_ticks(lines, st);
    lemma_run_remaining(lines, st, remaining_ticks(lines, st) as nat);
    lemma_visible_iff_no_ticks(lines, run_next_chars(lines, st, remaining_ticks(lines, st) as nat));
    assert forall|m: nat| m < remaining_ticks(lines, st) implies !all_visible(
        lines,
        #[trigger] run_next_chars(lines, st, m),
    ) by {
        lemma_run_remaining(lines, st, m);
        lemma_visible_iff_no_ticks(lines, run_next_chars(lines, st, m));
    }
}

/// The skip law: one `ShowText` signal makes everything visible at once,
/// wherever the reveal stood.
pub proof fn lemma_show_all(lines: Seq<LineV>, st: RevealState)
    ensures
        all_visible(lines, spec_advance(lines, st, Event::ShowText)),
{
}

} // verus!
