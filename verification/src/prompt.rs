//! Prompts: dialogues extended with numbered, player-selectable options.
use crate::dialogue::Dialogue;
use crate::dialogue::DialogueRun;
use crate::dialogue::Line;
use crate::dialogue::LineV;
use crate::dialogue::TextColor;
use crate::dialogue::plain;
use crate::dialogue::page_line;
use crate::textfmt::dec_digits;
use crate::textfmt::num_string;
use vstd::prelude::*;
use vstd::string::StringExecFns;

verus! {

/// One selectable option: its number, its label, and the trailing lines
/// appended to the dialogue once it is chosen.
pub struct PromptLine {
    pub index: usize,
    pub text: String,
    pub lines: Vec<Line>,
}

/// The mathematical value of a [`PromptLine`].
#[verifier::ext_equal]
pub struct PromptLineV {
    pub index: usize,
    pub text: Seq<char>,
    pub lines: Seq<LineV>,
}

impl View for PromptLine {
    type V = PromptLineV;

    open spec fn view(&self) -> PromptLineV {
        PromptLineV {
            index: self.index,
            text: self.text@,
            lines: self.lines@.map_values(|l: Line| l@),
        }
    }
}

/// The values of a list of options.
pub open spec fn options_v(s: Seq<PromptLine>) -> Seq<PromptLineV> {
    s.map_values(|o: PromptLine| o@)
}

/// No two options carry the same number.
pub open spec fn unique_indices(s: Seq<PromptLineV>) -> bool {
    forall|j: int, k: int| 0 <= j < k < s.len() ==> (#[trigger] s[j]).index != (#[trigger] s[k]).index
}

/// The largest option number in `s`, zero when there is none.
pub open spec fn max_index(s: Seq<PromptLineV>) -> int
    decreases s.len(),
{
    if s.len() == 0 {
        0
    } else {
        let m = max_index(s.drop_last());
        if s.last().index > m {
            s.last().index as int
        } else {
            m
        }
    }
}

pub proof fn lemma_max_index_ge(s: Seq<PromptLineV>, j: int)
    requires
        0 <= j < s.len(),
    ensures
        s[j].index <= max_index(s),
    decreases s.len(),
{
    if j < s.len() - 1 {
        lemma_max_index_ge(s.drop_last(), j);
    }
}

pub proof fn lemma_max_index_push(s: Seq<PromptLineV>, o: PromptLineV)
    ensures
        max_index(s.push(o)) == if o.index > max_index(s) {
            o.index as int
        } else {
            max_index(s)
        },
{
    assert(s.push(o).drop_last() =~= s);
    assert(s.push(o).last() == o);
}

/// A dialogue extended with an ordered set of numbered options; the
/// `skippable` flag allows finishing with no option chosen.
pub struct Prompt {
    pub lines: Vec<Line>,
    pub options: Vec<PromptLine>,
    pub skippable: bool,
}

impl Prompt {
    /// The introductory lines as values.
    pub open spec fn lines_v(&self) -> Seq<LineV> {
        self.lines@.map_values(|l: Line| l@)
    }

    /// The options as values.
    pub open spec fn opts(&self) -> Seq<PromptLineV> {
        options_v(self.options@)
    }

    /// The prompt invariant: option numbers are unique.
    pub open spec fn wf(&self) -> bool {
        unique_indices(self.opts())
    }

    /// An empty, non-skippable prompt.
    pub fn new() -> (p: Prompt)
        ensures
            p.lines_v() =~= Seq::<LineV>::empty(),
            p.opts() =~= Seq::<PromptLineV>::empty(),
            !p.skippable,
            p.wf(),
    {
        Prompt { lines: Vec::new(), options: Vec::new(), skippable: false }
    }

    /// Append an introductory plain line in the given color.
    pub fn color_text(&mut self, text: &str, color: TextColor)
        ensures
            final(self).lines_v() =~= old(self).lines_v().push(plain(text@, color)),
            final(self).options == old(self).options,
            final(self).skippable == old(self).skippable,
    {
        self.lines.push(Line::Text { text: text.to_owned(), color });
    }

    /// Append an introductory plain white line.
    pub fn text(&mut self, text: &str)
        ensures
            final(self).lines_v() =~= old(self).lines_v().push(
                plain(text@, TextColor::White),
            ),
            final(self).options == old(self).options,
            final(self).skippable == old(self).skippable,
    {
        self.color_text(text, TextColor::White);
    }

    /// Append the day header of diary page `page`.
    pub fn page(&mut self, page: u32)
        ensures
            final(self).lines_v() =~= old(self).lines_v().push(page_line(page as int)),
            final(self).options == old(self).options,
            final(self).skippable == old(self).skippable,
    {
        let mut s = String::from_str("Page ");
        let digits = num_string(page as u64);
        s.append(digits.as_str());
        self.lines.push(Line::BigText { text: s, color: TextColor::White });
    }

    /// Allow finishing this prompt with no option chosen.
    pub fn skippable(&mut self)
        ensures
            final(self).lines == old(self).lines,
            final(self).options == old(self).options,
            final(self).skippable,
    {
        self.skippable = true;
    }

    /// Add an option under an explicit number, which must be fresh.
    pub fn add_numbered_option(&mut self, index: usize, text: &str)
        requires
            forall|j: int| 0 <= j < old(self).opts().len() ==> (#[trigger] old(self).opts()[j]).index != index,
        ensures
            final(self).opts() =~~= old(self).opts().push(
                PromptLineV { index, text: text@, lines: Seq::empty() },
            ),
            final(self).lines == old(self).lines,
            final(self).skippable == old(self).skippable,
            old(self).wf() ==> final(self).wf(),
    {
        self.options.push(PromptLine { index, text: text.to_owned(), lines: Vec::new() });
        proof {
            assert(self.opts() =~~= old(self).opts().push(
                PromptLineV { index, text: text@, lines: Seq::empty() },
            ));
        }
    }

    /// Add an option numbered one past the largest existing number (the
    /// first option gets number one).
    pub fn add_option(&mut self, text: &str)
        requires
            old(self).wf(),
            max_index(old(self).opts()) < usize::MAX,
        ensures
            final(self).opts() =~~= old(self).opts().push(
                PromptLineV {
                    index: (max_index(old(self).opts()) + 1) as usize,
                    text: text@,
                    lines: Seq::empty(),
                },
            ),
            final(self).lines == old(self).lines,
            final(self).skippable == old(self).skippable,
            final(self).wf(),
    {
        let ghost opts0 = self.opts();
        let mut max: usize = 0;
        let mut i: usize = 0;
        while i < self.options.len()
            invariant
                self.opts() == opts0,
                0 <= i <= opts0.len(),
                max == max_index(opts0.take(i as int)),
            decreases opts0.len() - i,
        {
            proof {
                assert(opts0.take(i as int + 1).drop_last() =~= opts0.take(i as int));
                assert(opts0.take(i as int + 1).last() == opts0[i as int]);
            }
            if self.options[i].index > max {
                max = self.options[i].index;
            }
            i += 1;
        }
        proof {
            assert(opts0.take(opts0.len() as int) =~= opts0);
            assert forall|j: int| 0 <= j < opts0.len() implies (#[trigger] opts0[j]).index != (max
                + 1) by {
                lemma_max_index_ge(opts0, j);
            }
        }
        self.add_numbered_option(max + 1, text);
    }

    /// Append a trailing plain line, in the given color, to the most
    /// recently added option.
    pub fn option_color_text(&mut self, text: &str, color: TextColor)
        requires
            old(self).opts().len() > 0,
        ensures
            final(self).opts() =~~= old(self).opts().update(
                old(self).opts().len() - 1,
                (PromptLineV {
                    lines: old(self).opts().last().lines.push(plain(text@, color)),
                    ..old(self).opts().last()
                }),
            ),
            final(self).lines == old(self).lines,
            final(self).skippable == old(self).skippable,
            old(self).wf() ==> final(self).wf(),
    {
        let i = self.options.len() - 1;
        self.options[i].lines.push(Line::Text { text: text.to_owned(), color });
        proof {
            assert(self.opts() =~~= old(self).opts().update(
                old(self).opts().len() - 1,
                (PromptLineV {
                    lines: old(self).opts().last().lines.push(plain(text@, color)),
                    ..old(self).opts().last()
                }),
            ));
        }
    }

    /// Append a trailing plain white line to the most recently added
    /// option.
    pub fn option_text(&mut self, text: &str)
        requires
            old(self).opts().len() > 0,
        ensures
            final(self).opts() =~~= old(self).opts().update(
                old(self).opts().len() - 1,
                (PromptLineV {
                    lines: old(self).opts().last().lines.push(plain(text@, TextColor::White)),
                    ..old(self).opts().last()
                }),
            ),
            final(self).lines == old(self).lines,
            final(self).skippable == old(self).skippable,
            old(self).wf() ==> final(self).wf(),
    {
        self.option_color_text(text, TextColor::White);
    }
}

/// The label line under which option `o` is shown, e.g. `<2> chase the
/// cat off.`.
pub open spec fn option_label(o: PromptLineV) -> Seq<char> {
    "<"@ + dec_digits(o.index as int) + "> "@ + o.text
}

/// The label lines of a list of options, in order.
pub open spec fn label_lines(s: Seq<PromptLineV>) -> Seq<LineV> {
    s.map_values(|o: PromptLineV| plain(option_label(o), TextColor::White))
}

/// A prompt in the middle of being shown: the underlying dialogue reveal,
/// the options not yet chosen, whether the finish transition is unlocked,
/// and the number of the chosen option (zero while none is).
pub struct PromptRun {
    pub run: DialogueRun,
    pub options: Vec<PromptLine>,
    pub enable_enter: bool,
    pub chosen: usize,
}

/// Whether some option in `s` carries the number `d`.
pub open spec fn has_option(s: Seq<PromptLineV>, d: usize) -> bool {
    exists|i: int| 0 <= i < s.len() && (#[trigger] s[i]).index == d
}

/// The advance signal a frame's inputs classify to, given the visibility
/// at the frame's start and the choice state after its selection phase:
/// space skips while text is hidden; enter finishes once everything is
/// visible and either skipping is allowed or an option has been chosen;
/// anything else types one character.
pub open spec fn frame_event(
    vis0: bool,
    enable_enter: bool,
    chosen: usize,
    space: bool,
    enter: bool,
) -> crate::dialogue::Event {
    if !vis0 && space {
        crate::dialogue::Event::ShowText
    } else if vis0 && (enable_enter || chosen != 0) && enter {
        crate::dialogue::Event::Done
    } else {
        crate::dialogue::Event::NextChar
    }
}

impl PromptRun {
    /// The remaining options as values.
    pub open spec fn opts(&self) -> Seq<PromptLineV> {
        options_v(self.options@)
    }

    /// The run invariant: the character counter is bounded, option numbers
    /// are unique, and the dialogue holds at least one line per remaining
    /// option (their labels).
    pub open spec fn wf(&self) -> bool {
        &&& self.run.char_idx < usize::MAX
        &&& unique_indices(self.opts())
        &&& self.opts().len() <= self.run.dialogue@.len()
    }

    /// Whether a selection is taken this frame: no option chosen yet (a
    /// zero-numbered choice does not lock), all text visible at the
    /// frame's start, and the pressed digit naming an option.
    pub open spec fn selection_happens(&self, digit: Option<usize>) -> bool {
        &&& self.chosen == 0
        &&& self.run.spec_all_visible()
        &&& digit is Some
        &&& has_option(self.opts(), digit->0)
    }

    /// Start showing a prompt: the dialogue is the prompt's lines followed
    /// by one label line per option.
    pub fn new(p: Prompt) -> (r: PromptRun)
        requires
            p.wf(),
        ensures
            r.run.dialogue@ =~~= p.lines_v() + label_lines(p.opts()),
            r.run.st() == (crate::dialogue::RevealState {
                line_idx: 1,
                char_idx: 0,
                pause: 0,
                finished: false,
            }),
            r.opts() =~~= p.opts(),
            r.enable_enter == p.skippable,
            r.chosen == 0,
            r.wf(),
    {
        let Prompt { lines, options, skippable } = p;
        let ghost base = p.lines_v();
        let ghost ov = p.opts();
        let mut d = Dialogue::new();
        let mut i: usize = 0;
        while i < lines.len()
            invariant
                lines@.map_values(|l: Line| l@) == base,
                i <= lines@.len(),
                d@ =~~= base.take(i as int),
            decreases lines@.len() - i,
        {
            d.push_line(lines[i].duplicate());
            proof {
                assert(base.take(i as int + 1) =~~= base.take(i as int).push(base[i as int]));
            }
            i += 1;
        }
        proof {
            assert(base.take(base.len() as int) =~~= base);
        }
        let mut i: usize = 0;
        while i < options.len()
            invariant
                options_v(options@) == ov,
                i <= ov.len(),
                d@ =~~= base + label_lines(ov.take(i as int)),
            decreases options@.len() - i,
        {
            let mut s = String::from_str("<");
            let digits = num_string(options[i].index as u64);
            s.append(digits.as_str());
            s.append("> ");
            s.append(options[i].text.as_str());
            d.push_line(Line::Text { text: s, color: TextColor::White });
            proof {
                assert(label_lines(ov.take(i as int + 1)) =~~= label_lines(
                    ov.take(i as int),
                ).push(plain(option_label(ov[i as int]), TextColor::White)));
            }
            i += 1;
        }
        proof {
            assert(ov.take(ov.len() as int) =~~= ov);
        }
        let run = DialogueRun::new(d);
        PromptRun { run, options, enable_enter: skippable, chosen: 0 }
    }

    /// The number of the chosen option, zero when none was chosen.
    pub fn result(&self) -> (r: usize)
        ensures
            r == self.chosen,
    {
        self.chosen
    }

    /// Whether the prompt has been finished.
    pub fn is_finished(&self) -> (r: bool)
        ensures
            r == self.run.finished,
    {
        self.run.finished
    }

    /// Consume one frame's inputs: `digit` the number key pressed this
    /// frame, if any, and whether space and enter were pressed.
    ///
    /// While not all text is visible only skipping and typing apply. Once
    /// all text is visible and no option is yet chosen, the first digit
    /// naming an option locks it in: its label line is recolored for
    /// confirmation, its trailing lines are appended (exactly once), it is
    /// removed from the remaining options, and finishing is unlocked. Any
    /// later digit press is ignored. The frame then feeds the classified
    /// advance signal to the reveal machine.
    pub fn frame(&mut self, digit: Option<usize>, space: bool, enter: bool)
        requires
            old(self).wf(),
        ensures
            final(self).wf(),
            final(self).run.st() == crate::dialogue::spec_advance(
                final(self).run.dialogue@,
                old(self).run.st(),
                frame_event(
                    old(self).run.spec_all_visible(),
                    final(self).enable_enter,
                    final(self).chosen,
                    space,
                    enter,
                ),
            ),
            !old(self).selection_happens(digit) ==> final(self).options == old(self).options
                && final(self).chosen == old(self).chosen && final(self).enable_enter == old(
                self,
            ).enable_enter && final(self).run.dialogue@ == old(self).run.dialogue@,
            old(self).selection_happens(digit) ==> exists|i: int|
                {
                    &&& 0 <= i < old(self).opts().len()
                    &&& (#[trigger] old(self).opts()[i]).index == digit->0
                    &&& final(self).opts() =~~= old(self).opts().remove(i)
                    &&& final(self).run.dialogue@ =~~= old(self).run.dialogue@.update(
                        old(self).run.dialogue@.len() - old(self).opts().len() + i,
                        (LineV {
                            color: TextColor::Yellow,
                            ..old(self).run.dialogue@[old(self).run.dialogue@.len() - old(
                                self,
                            ).opts().len() + i]
                        }),
                    ) + old(self).opts()[i].lines
                    &&& final(self).chosen == digit->0
                    &&& final(self).enable_enter
                },
    {
        let ghost opts0 = self.opts();
        let ghost dlg0 = self.run.dialogue@;
        let vis0 = self.run.is_all_visible();
        if self.chosen == 0 && vis0 {
            if let Some(d) = digit {
                let mut pos: usize = 0;
                let mut found = false;
                while pos < self.options.len() && !found
                    invariant
                        self.opts() == opts0,
                        pos <= opts0.len(),
                        !found ==> forall|k: int|
                            0 <= k < pos ==> (#[trigger] opts0[k]).index != d,
                        found ==> pos < opts0.len() && opts0[pos as int].index == d,
                    decreases opts0.len() - pos + (if found {
                        0int
                    } else {
                        1int
                    }),
                {
                    if self.options[pos].index == d {
                        found = true;
                    } else {
                        pos += 1;
                    }
                }
                if found {
                    let off = self.run.dialogue.len() - self.options.len() + pos;
                    self.run.dialogue.set_line_color(off, TextColor::Yellow);
                    let opt = self.options.remove(pos);
                    let ghost mid = self.run.dialogue@;
                    let mut j: usize = 0;
                    while j < opt.lines.len()
                        invariant
                            j <= opt.lines@.len(),
                            self.run.dialogue@ =~~= mid + opt@.lines.take(j as int),
                            self.run.st() == old(self).run.st(),
                            self.run.char_idx < usize::MAX,
                            opt@.lines.len() == opt.lines@.len(),
                            self.options@ == old(self).options@.remove(pos as int),
                            self.chosen == old(self).chosen,
                            self.enable_enter == old(self).enable_enter,
                        decreases opt.lines@.len() - j,
                    {
                        self.run.dialogue.push_line(opt.lines[j].duplicate());
                        proof {
                            assert(opt@.lines.take(j as int + 1) =~~= opt@.lines.take(
                                j as int,
                            ).push(opt@.lines[j as int]));
                        }
                        j += 1;
                    }
                    self.chosen = d;
                    self.enable_enter = true;
                    proof {
                        assert(opt@.lines.take(opt@.lines.len() as int) =~~= opt@.lines);
                        old(self).options@.remove_ensures(pos as int);
                        opts0.remove_ensures(pos as int);
                        assert forall|j: int| 0 <= j < self.opts().len() implies #[trigger] self.opts()[j]
                            == opts0.remove(pos as int)[j] by {
                            if j < pos {
                                assert(self.options@[j] == old(self).options@[j]);
                            } else {
                                assert(self.options@[j] == old(self).options@[j + 1]);
                            }
                        }
                        assert(self.opts() =~~= opts0.remove(pos as int));
                        assert forall|a: int, b: int|
                            0 <= a < b < self.opts().len() implies (#[trigger] self.opts()[a]).index
                            != (#[trigger] self.opts()[b]).index by {
                            if b < pos {
                                assert(opts0[a] == self.opts()[a] && opts0[b] == self.opts()[b]);
                            } else if a < pos {
                                assert(opts0[a] == self.opts()[a] && opts0[b + 1]
                                    == self.opts()[b]);
                            } else {
                                assert(opts0[a + 1] == self.opts()[a] && opts0[b + 1]
                                    == self.opts()[b]);
                            }
                        }
                    }
                }
            }
        }
        let ev = if !vis0 && space {
            crate::dialogue::Event::ShowText
        } else if vis0 && (self.enable_enter || self.chosen != 0) && enter {
            crate::dialogue::Event::Done
        } else {
            crate::dialogue::Event::NextChar
        };
        self.run.advance(ev);
    }
}

} // verus!
