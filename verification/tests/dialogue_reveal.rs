use potat::dialogue::Dialogue;
use potat::dialogue::DialogueRun;
use potat::dialogue::Event;
use potat::dialogue::Line;
use potat::dialogue::TextColor;
use potat::prompt::Prompt;
use potat::prompt::PromptRun;

fn line_text(d: &Dialogue, i: usize) -> String {
    d.line(i).str().to_string()
}

#[test]
fn builders_append_styled_lines_in_order() {
    let mut d = Dialogue::new();
    d.page(12);
    d.text("plain");
    d.color_text("warning", TextColor::Red);
    d.big_text("loud");
    d.jiggle_text("wobbly");
    assert_eq!(d.len(), 5);
    assert_eq!(line_text(&d, 0), "Page 12");
    assert_eq!(line_text(&d, 1), "plain");
    assert_eq!(line_text(&d, 2), "warning");
    assert_eq!(line_text(&d, 3), "loud");
    assert_eq!(line_text(&d, 4), "wobbly");
    match d.line(2) {
        Line::Text { color, .. } => assert_eq!(*color, TextColor::Red),
        _ => panic!("expected a plain line"),
    }
    match d.line(3) {
        Line::BigText { .. } => {}
        _ => panic!("expected an emphasized line"),
    }
    match d.line(4) {
        Line::Jiggle { .. } => {}
        _ => panic!("expected an animated line"),
    }
}

#[test]
fn reveal_takes_exactly_the_counted_ticks() {
    let mut d = Dialogue::new();
    d.text("abc");
    d.text("hi");
    d.text("x");
    // line zero is visible from the start; typing lines one and two takes
    // their characters plus the fixed twenty-tick pause between lines
    let needed = 2 + 20 + 1;
    let mut run = DialogueRun::new(d);
    for _ in 0..needed - 1 {
        assert!(!run.is_all_visible());
        run.advance(Event::NextChar);
    }
    assert!(!run.is_all_visible());
    run.advance(Event::NextChar);
    assert!(run.is_all_visible());
}

#[test]
fn an_empty_line_still_costs_one_tick() {
    let mut d = Dialogue::new();
    d.text("a");
    d.text("");
    let mut run = DialogueRun::new(d);
    assert!(!run.is_all_visible());
    run.advance(Event::NextChar);
    assert!(run.is_all_visible());
}

#[test]
fn show_all_reveals_everything_at_once() {
    let mut d = Dialogue::new();
    d.text("a long first line");
    d.text("and quite a long second line too");
    d.text("and a third");
    let mut run = DialogueRun::new(d);
    run.advance(Event::NextChar);
    assert!(!run.is_all_visible());
    run.advance(Event::ShowText);
    assert!(run.is_all_visible());
}

#[test]
fn idle_changes_nothing_and_done_finishes() {
    let mut d = Dialogue::new();
    d.text("ab");
    d.text("cd");
    let mut run = DialogueRun::new(d);
    run.advance(Event::Idle);
    assert!(!run.is_all_visible());
    assert!(!run.finished);
    run.advance(Event::Done);
    assert!(run.finished);
}

fn two_option_prompt() -> Prompt {
    let mut p = Prompt::new();
    p.text("Pick one.");
    p.add_option("first choice");
    p.option_text("took the first");
    p.add_option("second choice");
    p.option_text("took the second");
    p.option_text("and it had two lines");
    p
}

fn reveal_all(run: &mut PromptRun) {
    run.frame(None, true, false);
    while !run.run.is_all_visible() {
        run.frame(None, false, false);
    }
}

#[test]
fn prompt_labels_follow_the_lines() {
    let p = two_option_prompt();
    let run = PromptRun::new(p);
    assert_eq!(run.run.dialogue.len(), 3);
    assert_eq!(run.run.dialogue.line(1).str(), "<1> first choice");
    assert_eq!(run.run.dialogue.line(2).str(), "<2> second choice");
}

#[test]
fn selecting_an_option_appends_its_lines_once_and_recolors_its_label() {
    let p = two_option_prompt();
    let mut run = PromptRun::new(p);
    reveal_all(&mut run);
    assert_eq!(run.result(), 0);
    run.frame(Some(2), false, false);
    assert_eq!(run.result(), 2);
    assert!(run.run.dialogue.len() == 5);
    assert_eq!(run.run.dialogue.line(3).str(), "took the second");
    assert_eq!(run.run.dialogue.line(4).str(), "and it had two lines");
    match run.run.dialogue.line(2) {
        Line::Text { color, .. } => assert_eq!(*color, TextColor::Yellow),
        _ => panic!("expected the label to stay a plain line"),
    }
}

#[test]
fn a_second_selection_is_ignored() {
    let p = two_option_prompt();
    let mut run = PromptRun::new(p);
    reveal_all(&mut run);
    run.frame(Some(2), false, false);
    let lines_after_choice = run.run.dialogue.len();
    run.frame(Some(1), false, false);
    assert_eq!(run.result(), 2);
    assert_eq!(run.run.dialogue.len(), lines_after_choice);
    match run.run.dialogue.line(1) {
        Line::Text { color, .. } => assert_eq!(*color, TextColor::White),
        _ => panic!("expected the first label untouched"),
    }
}

#[test]
fn a_digit_naming_no_option_does_nothing() {
    let p = two_option_prompt();
    let mut run = PromptRun::new(p);
    reveal_all(&mut run);
    run.frame(Some(7), false, false);
    assert_eq!(run.result(), 0);
}

#[test]
fn a_skippable_prompt_finishes_with_no_choice() {
    let mut p = Prompt::new();
    p.text("Nothing to choose.");
    p.skippable();
    let mut run = PromptRun::new(p);
    reveal_all(&mut run);
    run.frame(None, false, true);
    assert!(run.is_finished());
    assert_eq!(run.result(), 0);
}

#[test]
fn enter_is_locked_until_a_choice_or_skip_allows_it() {
    let p = two_option_prompt();
    let mut run = PromptRun::new(p);
    reveal_all(&mut run);
    run.frame(None, false, true);
    assert!(!run.is_finished());
    run.frame(Some(1), false, false);
    // the chosen option's trailing line still has to be revealed
    while !run.run.is_all_visible() {
        run.frame(None, false, false);
    }
    run.frame(None, false, true);
    assert!(run.is_finished());
    assert_eq!(run.result(), 1);
}
