//! The introduction: the four diary pages shown before a run begins.
use crate::dialogue::Dialogue;
use crate::dialogue::LineV;
use crate::dialogue::TextColor;
use crate::dialogue::jiggle;
use crate::dialogue::page_line;
use crate::dialogue::plain;
use vstd::prelude::*;

verus! {

/// A plain white line.
pub open spec fn pw(text: Seq<char>) -> LineV {
    plain(text, TextColor::White)
}

/// The first diary page: the day of the sirens.
pub open spec fn intro_page_one() -> Seq<LineV> {
    seq![
        page_line(1),
        pw("Uh. Dear diary? I guess?"@),
        pw("Today was shit."@),
        pw("I was in my potato field like normal, when the sirens started ringing."@),
        jiggle("It was terr.. terrif.. scary!"@, TextColor::White),
        pw("Luckily we had that shelter training last week."@),
        pw("I didn't get hurt, luckily, but the ground shook."@),
        pw("Anyway I'm now stuck in here."@),
        pw("See you tomorrow, I guess?"@),
        pw("This diary thing is complicated"@),
    ]
}

/// The second diary page: still in the bunker.
pub open spec fn intro_page_two() -> Seq<LineV> {
    seq![
        page_line(2),
        pw("Still stuck in the bunker."@),
        pw(""@),
        pw("Oh right, dear diary."@),
        pw("Still stuck in the bunker."@),
        pw("I'm not sure when to go out."@),
        pw(""@),
        pw("The beans I had were tasty."@),
        pw(""@),
        pw("See you tomorrow?"@),
    ]
}

/// The third diary page: catching up on sleep.
pub open spec fn intro_page_three() -> Seq<LineV> {
    seq![page_line(3), pw("At least I've been able to catch up on sleep."@)]
}

/// The fourth diary page: deciding to go back out.
pub open spec fn intro_page_four() -> Seq<LineV> {
    seq![
        page_line(4),
        pw("I'm so bored."@),
        pw("Tomorrow I'll go back to my barn."@),
        pw("I'd rather die of radiation than sit in here for the rest of my life."@),
        pw(""@),
        pw("I need some coffee."@),
    ]
}

/// The four introduction pages, in reading order. The run itself then
/// starts on diary page five.
pub fn intro_pages() -> (v: Vec<Dialogue>)
    ensures
        v@.len() == 4,
        v@[0]@ =~~= intro_page_one(),
        v@[1]@ =~~= intro_page_two(),
        v@[2]@ =~~= intro_page_three(),
        v@[3]@ =~~= intro_page_four(),
{
    let mut v: Vec<Dialogue> = Vec::new();
    let mut d = Dialogue::new();
    d.page(1);
    d.text("Uh. Dear diary? I guess?");
    d.text("Today was shit.");
    d.text("I was in my potato field like normal, when the sirens started ringing.");
    d.jiggle_text("It was terr.. terrif.. scary!");
    d.text("Luckily we had that shelter training last week.");
    d.text("I didn't get hurt, luckily, but the ground shook.");
    d.text("Anyway I'm now stuck in here.");
    d.text("See you tomorrow, I guess?");
    d.text("This diary thing is complicated");
    v.push(d);
    let mut d = Dialogue::new();
    d.page(2);
    d.text("Still stuck in the bunker.");
    d.text("");
    d.text("Oh right, dear diary.");
    d.text("Still stuck in the bunker.");
    d.text("I'm not sure when to go out.");
    d.text("");
    d.text("The beans I had were tasty.");
    d.text("");
    d.text("See you tomorrow?");
    v.push(d);
    let mut d = Dialogue::new();
    d.page(3);
    d.text("At least I've been able to catch up on sleep.");
    v.push(d);
    let mut d = Dialogue::new();
    d.page(4);
    d.text("I'm so bored.");
    d.text("Tomorrow I'll go back to my barn.");
    d.text("I'd rather die of radiation than sit in here for the rest of my life.");
    d.text("");
    d.text("I need some coffee.");
    v.push(d);
    v
}

} // verus!
