//! The scripted daily events, their dialogue, and the outcomes they apply.
use crate::cat::Cat;
use crate::cat::CatState;
use crate::dialogue::Dialogue;
use crate::dialogue::LineV;
use crate::dialogue::TextColor;
use crate::dialogue::jiggle;
use crate::dialogue::page_line;
use crate::dialogue::plain;
use crate::farm::FARM_TILES;
use crate::farm::Farm;
use crate::farm::preset_tile;
use crate::inventory::Item;
use crate::inventory::count_in;
use crate::prompt::Prompt;
use crate::prompt::lemma_max_index_push;
use crate::prompt::max_index;
use crate::prompt::PromptLineV;
use crate::state::State;
use crate::textfmt::dec_digits;
use crate::textfmt::num_string;
use vstd::prelude::*;
use vstd::string::StringExecFns;

verus! {

/// Who came to the door.
#[derive(Copy, Clone, Debug, PartialEq, Eq, Structural)]
pub enum Visitor {
    OldFriend,
    Trader,
}

/// The day's scripted occurrence, selected once per day and immutable for
/// its duration.
#[derive(Copy, Clone, Debug, PartialEq, Eq, Structural)]
pub enum Event {
    Visitor(Visitor),
    UnlockFarm,
    Headache,
    Raiders,
    CatVisit,
    Mice,
    Cold,
    Nothing,
}

impl Event {
    /// Whether the player can still act this day: an incapacitating
    /// headache disables both the cook and tend-farm actions.
    pub fn can_execute_action(&self) -> (r: bool)
        ensures
            r == !(*self is Headache),
    {
        match self {
            Event::Headache => false,
            _ => true,
        }
    }
}

/// A plain white line.
pub open spec fn pw(text: Seq<char>) -> LineV {
    plain(text, TextColor::White)
}

/// The day's dialogue: either a plain diary entry or a prompt with
/// player-selectable branches.
pub enum DayDialogue {
    Plain(Dialogue),
    Choice(Prompt),
}

/// The diary entry for the old friend's visit.
pub open spec fn old_friend_lines(page: int) -> Seq<LineV> {
    seq![
        page_line(page),
        pw("I went back to my barn."@),
        pw("I saw Greg!"@),
        pw("We shared some stories."@),
        pw(""@),
        pw("He gave me some potato seeds."@),
        pw("Maybe these will come in handy."@),
        plain("Got 10 seeds"@, TextColor::Yellow),
    ]
}

/// The prompt lines for the trader's visit, given the cooked-potato count.
pub open spec fn trader_lines(page: int, potatoes: nat) -> Seq<LineV> {
    seq![page_line(page), pw("A trader showed up today."@)] + (if potatoes < 10 {
        seq![pw("But I didn't have enough..."@)]
    } else {
        Seq::<LineV>::empty()
    })
}

/// The trader's options: the seed trade above ten cooked potatoes, and the
/// gun above five hundred.
pub open spec fn trader_options(potatoes: nat) -> Seq<PromptLineV> {
    (if potatoes > 10 {
        seq![
            PromptLineV {
                index: 1usize,
                text: "10 potato seeds for 10 cooked potatoes"@,
                lines: seq![
                    pw("I traded some potatoes for some seeds."@),
                    pw("Time to plant some more I guess."@),
                ],
            },
        ]
    } else {
        Seq::<PromptLineV>::empty()
    }) + (if potatoes > 500 {
        seq![
            PromptLineV {
                index: 2usize,
                text: "a gun for 500 potatoes"@,
                lines: seq![
                    pw("He had a gun for trade, but wanted a huge amount of potatoes"@),
                    pw("Long story short I can defend myself now."@),
                ],
            },
        ]
    } else {
        Seq::<PromptLineV>::empty()
    })
}

/// The diary entry for an uneventful day; the note about regained health
/// appears when food is full and health is not.
pub open spec fn nothing_lines(page: int, regained: bool) -> Seq<LineV> {
    seq![page_line(page), pw("I had an uneventful sleep."@), pw("How refreshing."@)] + (
    if regained {
        seq![plain("Regained some health"@, TextColor::DarkGreen)]
    } else {
        Seq::<LineV>::empty()
    })
}

/// The diary entry for the mice, which differs with a cat around.
pub open spec fn mice_lines(page: int, has_cat: bool) -> Seq<LineV> {
    if has_cat {
        seq![
            page_line(page),
            pw("I saw the cat play with some dead mice this morning."@),
            pw("Disgusting."@),
        ]
    } else {
        seq![
            page_line(page),
            jiggle("Some of my potatoes have been eaten by mice!"@, TextColor::Red),
            pw("This is a disaster..."@),
        ]
    }
}

/// The diary entry for the headache day.
pub open spec fn headache_lines(page: int) -> Seq<LineV> {
    seq![
        page_line(page),
        pw("Woke up with a massive headache."@),
        pw("Not going to be able to work today."@),
        pw(""@),
        pw("The worst part about a nuclear war is the lack of painkillers."@),
    ]
}

/// The prompt lines for the cat's visit.
pub open spec fn cat_visit_lines(page: int) -> Seq<LineV> {
    seq![
        page_line(page),
        pw("I had a visit of a cute cat this morning."@),
        pw("He seemed to like me."@),
    ]
}

/// The cat prompt's two options: take the cat in, or chase it off.
pub open spec fn cat_visit_options() -> Seq<PromptLineV> {
    seq![
        PromptLineV {
            index: 1usize,
            text: "take the cat in."@,
            lines: seq![
                pw("I decided to take the cat in."@),
                pw("He seems to like the fireplace."@),
            ],
        },
        PromptLineV {
            index: 2usize,
            text: "chase the cat off."@,
            lines: seq![
                pw("Momma always said that cats brought bad omens."@),
                pw("I don't think that cat is going to be back."@),
            ],
        },
    ]
}

/// How many cooked potatoes the raiders demand: more with a cat to
/// threaten.
pub open spec fn raiders_demand(has_cat: bool) -> nat {
    if has_cat {
        100
    } else {
        70
    }
}

/// The prompt lines for the raiders: with a gun the encounter ends there;
/// without one, the cat threat and the shortfall note depend on the state.
pub open spec fn raiders_lines(page: int, has_gun: bool, has_cat: bool, potatoes: nat) -> Seq<
    LineV,
> {
    seq![page_line(page), pw("Raiders came in last night demanding food."@)] + (if has_gun {
        seq![
            pw("Luckily I had that gun."@),
            pw("I pointed it at them and they got scared."@),
            pw("You should've seen their faces."@),
        ]
    } else {
        (if has_cat {
            seq![pw("They even threatened to kill my cat if I didn't comply."@)]
        } else {
            Seq::<LineV>::empty()
        }) + (if potatoes < raiders_demand(has_cat) {
            seq![
                pw(
                    "They demanded "@ + dec_digits(raiders_demand(has_cat) as int)
                        + " potatoes, I didn't have that many..."@,
                ),
            ]
        } else {
            Seq::<LineV>::empty()
        })
    })
}

/// The raiders' options: refusing (fatal when health is down to the
/// damage they deal), and paying them off when the stock covers it. With
/// a gun there is nothing to choose.
pub open spec fn raiders_options(has_gun: bool, has_cat: bool, health: int, potatoes: nat) -> Seq<
    PromptLineV,
> {
    if has_gun {
        Seq::<PromptLineV>::empty()
    } else {
        seq![
            PromptLineV {
                index: 1usize,
                text: "refuse"@,
                lines: if health <= 30 {
                    seq![plain("They shoot you. You die."@, TextColor::Red)]
                } else {
                    seq![
                        plain("Those bastards shot me"@, TextColor::Red),
                        plain("<Lost health>"@, TextColor::Red),
                    ]
                },
            },
        ] + (if potatoes >= raiders_demand(has_cat) {
            seq![
                PromptLineV {
                    index: 2usize,
                    text: "Give "@ + dec_digits(raiders_demand(has_cat) as int) + " potatoes"@,
                    lines: seq![pw("I had no choice but to give them the potatoes"@)],
                },
            ]
        } else {
            Seq::<PromptLineV>::empty()
        })
    }
}

/// The diary entry for unlocking the farm.
pub open spec fn unlock_farm_lines(page: int) -> Seq<LineV> {
    seq![
        page_line(page),
        pw("I'm so tired of sitting inside all day."@),
        pw("And my food is starting to get low."@),
        pw(""@),
        pw("I should go farm some potatoes."@),
        jiggle("Unlocked farm!"@, TextColor::Yellow),
    ]
}

/// The diary entry for coming down with a cold.
pub open spec fn cold_lines(page: int) -> Seq<LineV> {
    seq![
        page_line(page),
        pw("I came down with a nasty cold."@),
        pw("Everything aches and my nose will not stop running."@),
    ]
}

/// The outcome an event settles on, given the prompt choice the player
/// made (zero when the day's dialogue had no choice, or none was taken).
pub open spec fn spec_outcome(ev: Event, choice: usize, s: State) -> Outcome {
    match ev {
        Event::Visitor(Visitor::OldFriend) => Outcome::GainItem(Item::Seeds, 10),
        Event::Visitor(Visitor::Trader) => if choice == 1 {
            Outcome::Trade {
                give: Item::CookedPotato,
                give_count: 10,
                get: Item::Seeds,
                get_count: 10,
            }
        } else if choice == 2 {
            Outcome::Trade { give: Item::CookedPotato, give_count: 500, get: Item::Gun, get_count: 1 }
        } else {
            Outcome::NoOp
        },
        Event::Nothing => Outcome::RegainHealth(1),
        Event::Mice => if s.cat is Cat {
            Outcome::NoOp
        } else {
            Outcome::MiceRaid
        },
        Event::Headache => Outcome::NoOp,
        Event::CatVisit => if choice == 1 {
            Outcome::AdoptCat
        } else {
            Outcome::ChaseCat
        },
        Event::Raiders => if choice == 1 {
            Outcome::LoseHealth(30)
        } else if choice == 2 {
            Outcome::LoseItems(Item::CookedPotato, raiders_demand(s.cat is Cat) as usize)
        } else {
            Outcome::NoOp
        },
        Event::UnlockFarm => Outcome::UnlockFarm,
        Event::Cold => Outcome::CatchCold,
    }
}

impl Event {
    /// Build the day's dialogue or prompt from the current state; nothing
    /// is mutated here. The content is pinned down per event by the line
    /// and option functions above.
    pub fn dialogue(&self, state: &State) -> (d: DayDialogue)
        requires
            state.wf(),
        ensures
            ({
                let page = state.page as int;
                let potatoes = count_in(state.inventory@, Item::CookedPotato);
                let has_cat = state.cat is Cat;
                let has_gun = count_in(state.inventory@, Item::Gun) > 0;
                match *self {
                    Event::Visitor(Visitor::OldFriend) => d matches DayDialogue::Plain(dd) && dd@
                        =~~= old_friend_lines(page),
                    Event::Visitor(Visitor::Trader) => d matches DayDialogue::Choice(p) && {
                        &&& p.lines_v() =~~= trader_lines(page, potatoes)
                        &&& p.opts() =~~= trader_options(potatoes)
                        &&& p.skippable == (potatoes < 10)
                        &&& p.wf()
                    },
                    Event::Nothing => d matches DayDialogue::Plain(dd) && dd@ =~~= nothing_lines(
                        page,
                        state.food.current == state.food.max && state.health.current
                            != state.health.max,
                    ),
                    Event::Mice => d matches DayDialogue::Plain(dd) && dd@ =~~= mice_lines(
                        page,
                        has_cat,
                    ),
                    Event::Headache => d matches DayDialogue::Plain(dd) && dd@ =~~= headache_lines(
                        page,
                    ),
                    Event::CatVisit => d matches DayDialogue::Choice(p) && {
                        &&& p.lines_v() =~~= cat_visit_lines(page)
                        &&& p.opts() =~~= cat_visit_options()
                        &&& !p.skippable
                        &&& p.wf()
                    },
                    Event::Raiders => d matches DayDialogue::Choice(p) && {
                        &&& p.lines_v() =~~= raiders_lines(page, has_gun, has_cat, potatoes)
                        &&& p.opts() =~~= raiders_options(
                            has_gun,
                            has_cat,
                            state.health.current as int,
                            potatoes,
                        )
                        &&& p.skippable == has_gun
                        &&& p.wf()
                    },
                    Event::UnlockFarm => d matches DayDialogue::Plain(dd) && dd@
                        =~~= unlock_farm_lines(page),
                    Event::Cold => d matches DayDialogue::Plain(dd) && dd@ =~~= cold_lines(page),
                }
            }),
    {
        match self {
            Event::Visitor(Visitor::OldFriend) => {
                let mut dd = Dialogue::new();
                dd.page(state.page);
                dd.text("I went back to my barn.");
                dd.text("I saw Greg!");
                dd.text("We shared some stories.");
                dd.text("");
                dd.text("He gave me some potato seeds.");
                dd.text("Maybe these will come in handy.");
                dd.color_text("Got 10 seeds", TextColor::Yellow);
                DayDialogue::Plain(dd)
            },
            Event::Visitor(Visitor::Trader) => {
                let potatoes = state.inventory.count(Item::CookedPotato);
                let mut p = Prompt::new();
                p.page(state.page);
                p.text("A trader showed up today.");
                if potatoes < 10 {
                    p.text("But I didn't have enough...");
                    p.skippable();
                }
                if potatoes > 10 {
                    proof {
                        lemma_max_index_push(Seq::<PromptLineV>::empty(), p.opts()[0]);
                    }
                    p.add_option("10 potato seeds for 10 cooked potatoes");
                    p.option_text("I traded some potatoes for some seeds.");
                    p.option_text("Time to plant some more I guess.");
                }
                if potatoes > 500 {
                    proof {
                        lemma_max_index_push(
                            p.opts().drop_last(),
                            p.opts().last(),
                        );
                        assert(p.opts().drop_last().push(p.opts().last()) =~~= p.opts());
                    }
                    p.add_option("a gun for 500 potatoes");
                    p.option_text("He had a gun for trade, but wanted a huge amount of potatoes");
                    p.option_text("Long story short I can defend myself now.");
                }
                proof {
                    assert(p.lines_v() =~~= trader_lines(
                        state.page as int,
                        count_in(state.inventory@, Item::CookedPotato),
                    ));
                    assert(p.opts() =~~= trader_options(
                        count_in(state.inventory@, Item::CookedPotato),
                    ));
                }
                DayDialogue::Choice(p)
            },
            Event::Nothing => {
                let mut dd = Dialogue::new();
                dd.page(state.page);
                dd.text("I had an uneventful sleep.");
                dd.text("How refreshing.");
                if state.food.is_max() && !state.health.is_max() {
                    dd.color_text("Regained some health", TextColor::DarkGreen);
                }
                DayDialogue::Plain(dd)
            },
            Event::Mice => {
                let mut dd = Dialogue::new();
                dd.page(state.page);
                if state.cat.get().is_some() {
                    dd.text("I saw the cat play with some dead mice this morning.");
                    dd.text("Disgusting.");
                } else {
                    dd.jiggle_color_text(
                        "Some of my potatoes have been eaten by mice!",
                        TextColor::Red,
                    );
                    dd.text("This is a disaster...");
                }
                DayDialogue::Plain(dd)
            },
            Event::Headache => {
                let mut dd = Dialogue::new();
                dd.page(state.page);
                dd.text("Woke up with a massive headache.");
                dd.text("Not going to be able to work today.");
                dd.text("");
                dd.text("The worst part about a nuclear war is the lack of painkillers.");
                DayDialogue::Plain(dd)
            },
            Event::CatVisit => {
                let mut p = Prompt::new();
                p.page(state.page);
                p.text("I had a visit of a cute cat this morning.");
                p.text("He seemed to like me.");
                p.add_option("take the cat in.");
                p.option_text("I decided to take the cat in.");
                p.option_text("He seems to like the fireplace.");
                proof {
                    assert(p.opts().drop_last() =~= Seq::<PromptLineV>::empty());
                    assert(max_index(p.opts()) == p.opts()[0].index);
                }
                p.add_option("chase the cat off.");
                p.option_text("Momma always said that cats brought bad omens.");
                p.option_text("I don't think that cat is going to be back.");
                DayDialogue::Choice(p)
            },
            Event::Raiders => {
                let has_gun = state.inventory.count(Item::Gun) > 0;
                let potato_count = state.inventory.count(Item::CookedPotato);
                let requested: usize = if state.cat.get().is_some() {
                    100
                } else {
                    70
                };
                let mut p = Prompt::new();
                p.page(state.page);
                p.text("Raiders came in last night demanding food.");
                if has_gun {
                    p.text("Luckily I had that gun.");
                    p.text("I pointed it at them and they got scared.");
                    p.text("You should've seen their faces.");
                    p.skippable();
                    return DayDialogue::Choice(p);
                }
                if state.cat.get().is_some() {
                    p.text("They even threatened to kill my cat if I didn't comply.");
                }
                if potato_count < requested {
                    let mut s = String::from_str("They demanded ");
                    let digits = num_string(requested as u64);
                    s.append(digits.as_str());
                    s.append(" potatoes, I didn't have that many...");
                    p.text(s.as_str());
                }
                p.add_option("refuse");
                if state.health.current <= 30 {
                    p.option_color_text("They shoot you. You die.", TextColor::Red);
                } else {
                    p.option_color_text("Those bastards shot me", TextColor::Red);
                    p.option_color_text("<Lost health>", TextColor::Red);
                }
                if potato_count >= requested {
                    let mut s = String::from_str("Give ");
                    let digits = num_string(requested as u64);
                    s.append(digits.as_str());
                    s.append(" potatoes");
                proof {
                    assert(p.opts().drop_last() =~= Seq::<PromptLineV>::empty());
                    assert(max_index(p.opts()) == p.opts()[0].index);
                }
                    p.add_option(s.as_str());
                    p.option_text("I had no choice but to give them the potatoes");
                }
                DayDialogue::Choice(p)
            },
            Event::UnlockFarm => {
                let mut dd = Dialogue::new();
                dd.page(state.page);
                dd.text("I'm so tired of sitting inside all day.");
                dd.text("And my food is starting to get low.");
                dd.text("");
                dd.text("I should go farm some potatoes.");
                dd.jiggle_color_text("Unlocked farm!", TextColor::Yellow);
                DayDialogue::Plain(dd)
            },
            Event::Cold => {
                let mut dd = Dialogue::new();
                dd.page(state.page);
                dd.text("I came down with a nasty cold.");
                dd.text("Everything aches and my nose will not stop running.");
                DayDialogue::Plain(dd)
            },
        }
    }

    /// The outcome the day settles on, given the player's prompt choice
    /// (zero when there was none).
    pub fn outcome(&self, choice: usize, state: &State) -> (o: Outcome)
        ensures
            o == spec_outcome(*self, choice, *state),
    {
        match self {
            Event::Visitor(Visitor::OldFriend) => Outcome::GainItem(Item::Seeds, 10),
            Event::Visitor(Visitor::Trader) => {
                if choice == 1 {
                    Outcome::Trade {
                        give: Item::CookedPotato,
                        give_count: 10,
                        get: Item::Seeds,
                        get_count: 10,
                    }
                } else if choice == 2 {
                    Outcome::Trade {
                        give: Item::CookedPotato,
                        give_count: 500,
                        get: Item::Gun,
                        get_count: 1,
                    }
                } else {
                    Outcome::NoOp
                }
            },
            Event::Nothing => Outcome::RegainHealth(1),
            Event::Mice => {
                if state.cat.get().is_some() {
                    Outcome::NoOp
                } else {
                    Outcome::MiceRaid
                }
            },
            Event::Headache => Outcome::NoOp,
            Event::CatVisit => {
                if choice == 1 {
                    Outcome::AdoptCat
                } else {
                    Outcome::ChaseCat
                }
            },
            Event::Raiders => {
                if choice == 1 {
                    Outcome::LoseHealth(30)
                } else if choice == 2 {
                    let requested: usize = if state.cat.get().is_some() {
                        100
                    } else {
                        70
                    };
                    Outcome::LoseItems(Item::CookedPotato, requested)
                } else {
                    Outcome::NoOp
                }
            },
            Event::UnlockFarm => Outcome::UnlockFarm,
            Event::Cold => Outcome::CatchCold,
        }
    }
}

/// The state delta an event produces: a pure description until it is
/// applied to the simulation state, exactly once per day.
#[derive(Copy, Clone, Debug, PartialEq, Eq, Structural)]
pub enum Outcome {
    NoOp,
    RegainHealth(u32),
    LoseHealth(u32),
    GainItem(Item, usize),
    LoseItems(Item, usize),
    Trade { give: Item, give_count: usize, get: Item, get_count: usize },
    UnlockFarm,
    MiceRaid,
    AdoptCat,
    ChaseCat,
    CatchCold,
}

impl Outcome {
    /// Apply the delta to the simulation state, exactly once.
    ///
    /// A health loss that exhausts the health stat sets the terminal
    /// `is_dead` flag. A trade takes its price atomically where it is
    /// covered, takes nothing otherwise, and hands the goods over either
    /// way. A mice raid destroys
    /// each farm potato on an independent coin draw, and only when no cat
    /// is around and a farm exists.
    pub fn apply(self, state: &mut State)
        requires
            old(state).wf(),
            self matches Outcome::RegainHealth(h) ==> old(state).health.current + h <= u32::MAX,
            self matches Outcome::GainItem(it, n) ==> count_in(old(state).inventory@, it) + n
                <= usize::MAX,
            self matches Outcome::Trade { give, give_count, get, get_count } ==> count_in(
                old(state).inventory@,
                get,
            ) + get_count <= usize::MAX,
        ensures
            final(state).wf(),
            match self {
                Outcome::NoOp => *final(state) == *old(state),
                Outcome::RegainHealth(h) => *final(state) == (State {
                    health: final(state).health,
                    ..*old(state)
                }) && final(state).health.max == old(state).health.max && final(state)
                    .health.current == (if old(state).health.current + h <= old(state).health.max {
                    old(state).health.current + h
                } else {
                    old(state).health.max as int
                }),
                Outcome::LoseHealth(h) => *final(state) == (State {
                    health: final(state).health,
                    is_dead: final(state).is_dead,
                    ..*old(state)
                }) && final(state).health.max == old(state).health.max && final(state)
                    .health.current == (if old(state).health.current > h {
                    old(state).health.current - h
                } else {
                    0int
                }) && final(state).is_dead == (old(state).is_dead || old(state).health.current
                    <= h),
                Outcome::GainItem(it, n) => *final(state) == (State {
                    inventory: final(state).inventory,
                    ..*old(state)
                }) && (forall|i: Item|
                    #[trigger] count_in(final(state).inventory@, i) == count_in(
                        old(state).inventory@,
                        i,
                    ) + (if i == it {
                        n as nat
                    } else {
                        0
                    })),
                Outcome::LoseItems(it, n) => *final(state) == (State {
                    inventory: final(state).inventory,
                    ..*old(state)
                }) && (forall|i: Item|
                    #[trigger] count_in(final(state).inventory@, i) == count_in(
                        old(state).inventory@,
                        i,
                    ) - (if i == it {
                        if n <= count_in(old(state).inventory@, it) {
                            n as nat
                        } else {
                            count_in(old(state).inventory@, it)
                        }
                    } else {
                        0
                    })),
                Outcome::Trade { give, give_count, get, get_count } => {
                    let paid = count_in(old(state).inventory@, give) > 0 && count_in(
                        old(state).inventory@,
                        give,
                    ) >= give_count;
                    *final(state) == (State { inventory: final(state).inventory, ..*old(state) })
                        && (forall|i: Item|
                        #[trigger] count_in(final(state).inventory@, i) == count_in(
                            old(state).inventory@,
                            i,
                        ) - (if paid && i == give {
                            give_count as nat
                        } else {
                            0
                        }) + (if i == get {
                            get_count as nat
                        } else {
                            0
                        }))
                },
                Outcome::UnlockFarm => *final(state) == (State {
                    farm: final(state).farm,
                    ..*old(state)
                }) && final(state).farm is Some && final(state).farm->0.days_since_last_blight == 0
                    && final(state).farm->0.tiles@.len() == FARM_TILES && (forall|k: int|
                    0 <= k < FARM_TILES ==> #[trigger] final(state).farm->0.tiles@[k]
                        == preset_tile(k)),
                Outcome::MiceRaid => if old(state).cat is Cat || old(state).farm is None {
                    *final(state) == (State { rng: final(state).rng, ..*old(state) })
                } else {
                    &&& *final(state) == (State {
                        rng: final(state).rng,
                        farm: final(state).farm,
                        ..*old(state)
                    })
                    &&& final(state).farm is Some
                    &&& final(state).farm->0.days_since_last_blight == old(state)
                        .farm->0.days_since_last_blight
                    &&& forall|k: int|
                        0 <= k < FARM_TILES ==> (#[trigger] final(state).farm->0.tiles@[k]
                            == old(state).farm->0.tiles@[k] || (old(state).farm->0.tiles@[k]
                            is Potato && final(state).farm->0.tiles@[k]
                            == crate::farm::Tile::Dirt))
                },
                Outcome::AdoptCat => *final(state) == (State {
                    cat: CatState::Cat(Cat {  }),
                    ..*old(state)
                }),
                Outcome::ChaseCat => *final(state) == (State {
                    cat: CatState::Visited,
                    ..*old(state)
                }),
                Outcome::CatchCold => *final(state) == (State {
                    has_a_cold: true,
                    ..*old(state)
                }),
            },
    {
        match self {
            Outcome::NoOp => {},
            Outcome::RegainHealth(h) => {
                state.health.add(h);
            },
            Outcome::LoseHealth(h) => {
                if !state.health.subn(h) {
                    state.is_dead = true;
                }
            },
            Outcome::GainItem(it, n) => {
                state.inventory.add(it, n);
            },
            Outcome::LoseItems(it, n) => {
                state.inventory.remove(it, n);
            },
            Outcome::Trade { give, give_count, get, get_count } => {
                let _ = state.inventory.try_remove(give, give_count);
                state.inventory.add(get, get_count);
            },
            Outcome::UnlockFarm => {
                state.farm = Some(Farm::default());
            },
            Outcome::MiceRaid => {
                let adopted = state.cat.get().is_some();
                if !adopted {
                    let mut farm = state.farm.take();
                    match &mut farm {
                        Some(f) => {
                            f.mice_raid(&mut state.rng);
                        },
                        None => {},
                    }
                    state.farm = farm;
                }
            },
            Outcome::AdoptCat => {
                state.cat = CatState::Cat(Cat {  });
            },
            Outcome::ChaseCat => {
                state.cat = CatState::Visited;
            },
            Outcome::CatchCold => {
                state.has_a_cold = true;
            },
        }
    }
}

} // verus!
