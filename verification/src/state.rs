//! The top-level simulation state and the end-of-day resolution.
use crate::cat::CatState;
use crate::dialogue::Dialogue;
use crate::dialogue::LineV;
use crate::dialogue::page_line;
use crate::dialogue::plain;
use crate::event::Event;
use crate::farm::BLIGHT_GRACE_DAYS;
use crate::farm::Farm;
use crate::farm::any_blighted;
use crate::farm::seeded;
use crate::farm::swept;
use crate::inventory::Inventory;
use crate::inventory::Item;
use crate::inventory::count_in;
use crate::rng::rng_from_seed;
use crate::rng::rng_range;
use crate::stat::Stat;
use crate::textfmt::dec_digits;
use crate::textfmt::num_string;
use rand::rngs::StdRng;
use vstd::prelude::*;
use vstd::string::StringExecFns;

verus! {

/// What the player chose to do with the day after the event resolved.
#[derive(Copy, Clone, Debug, PartialEq, Eq, Structural)]
pub enum DayAction {
    Farm,
    Next,
}

/// The whole simulation state: the seeded randomness capability, the
/// resource economy, day counters, the two stats, the narrative flags, and
/// the farm once it is unlocked. Mutated only by outcome application, farm
/// actions, and end-of-day resolution — never by the rendering layer.
pub struct State {
    pub rng: StdRng,
    pub inventory: Inventory,
    pub start_page: u32,
    pub page: u32,
    pub health: Stat,
    pub food: Stat,
    pub cat: CatState,
    pub farm: Option<Farm>,
    pub is_dead: bool,
    pub has_a_cold: bool,
    pub last_cook_was_blighted: bool,
}

impl State {
    /// The state invariant.
    pub open spec fn wf(&self) -> bool {
        &&& self.inventory.wf()
        &&& self.health.wf()
        &&& self.food.wf()
        &&& self.start_page <= self.page
        &&& match self.farm {
            Some(f) => f.wf(),
            None => true,
        }
    }

    /// A fresh run starting on diary page `start_page`, with the given
    /// randomness seed: full health of fifty, full food of one hundred,
    /// five cans of beans, no farm, no cat seen, no flags set.
    pub fn new(start_page: u32, seed: u64) -> (s: State)
        ensures
            s.start_page == start_page,
            s.page == start_page,
            s.inventory@ =~= seq![(Item::CanOfBeans, 5usize)],
            s.health.current == 50 && s.health.max == 50,
            s.food.current == 100 && s.food.max == 100,
            s.cat is NotVisited,
            s.farm is None,
            !s.is_dead,
            !s.has_a_cold,
            !s.last_cook_was_blighted,
            s.wf(),
    {
        State {
            rng: rng_from_seed(seed),
            inventory: Inventory::new(),
            start_page,
            page: start_page,
            health: Stat::new(50),
            food: Stat::new(100),
            cat: CatState::NotVisited,
            farm: None,
            is_dead: false,
            has_a_cold: false,
            last_cook_was_blighted: false,
        }
    }

    /// Days elapsed since the run began.
    pub fn day_delta(&self) -> (r: u32)
        requires
            self.start_page <= self.page,
        ensures
            r == self.page - self.start_page,
    {
        self.page - self.start_page
    }

    /// Whether the farm has been unlocked.
    pub fn can_farm(&self) -> (r: bool)
        ensures
            r == (self.farm is Some),
    {
        match &self.farm {
            Some(f) => true,
            None => false,
        }
    }

    /// Whether the cook action is offered: something cookable is held and
    /// the day's event does not suppress player actions.
    pub fn can_cook(&self, last_event: &Event) -> (r: bool)
        requires
            self.inventory.wf(),
        ensures
            r == ((self.inventory.spec_count(Item::RawPotato) > 0
                || self.inventory.spec_count(Item::RawPotatoBlight) > 0) && !(*last_event
                is Headache)),
    {
        self.inventory.has_cookables() && last_event.can_execute_action()
    }

    /// Whether the tend-farm action is offered: the farm is unlocked and
    /// the day's event does not suppress player actions.
    pub fn can_tend_farm(&self, last_event: &Event) -> (r: bool)
        ensures
            r == (self.farm is Some && !(*last_event is Headache)),
    {
        self.can_farm() && last_event.can_execute_action()
    }

    /// How `end_of_day` feeds the player: with `d` drawn for the day, an
    /// available edible (cooked potato before canned food) is consumed and
    /// the food stat rises by `d` (saturating at its maximum); otherwise
    /// the food stat falls by `d`, saturating at zero.
    pub open spec fn food_outcome(pre: State, post: State, d: u32) -> bool {
        let cooked = count_in(pre.inventory@, Item::CookedPotato);
        let beans = count_in(pre.inventory@, Item::CanOfBeans);
        if cooked > 0 || beans > 0 {
            &&& post.food.current == if pre.food.current + d <= pre.food.max {
                pre.food.current + d
            } else {
                pre.food.max as int
            }
            &&& forall|it: Item|
                #[trigger] count_in(post.inventory@, it) == count_in(pre.inventory@, it) - (
                if it == (if cooked > 0 {
                    Item::CookedPotato
                } else {
                    Item::CanOfBeans
                }) {
                    1nat
                } else {
                    0
                })
        } else {
            &&& post.food.current == if pre.food.current > d {
                pre.food.current - d
            } else {
                0int
            }
            &&& post.inventory@ == pre.inventory@
        }
    }

    /// End-of-day resolution: the diary page turns; a food delta is drawn
    /// from `[5, 20)` and applied as [`State::food_outcome`] says; and the
    /// farm, if unlocked, takes its day tick.
    pub fn end_of_day(&mut self)
        requires
            old(self).wf(),
            old(self).page < u32::MAX,
            old(self).food.current + 20 <= u32::MAX,
            match old(self).farm {
                Some(f) => f.days_since_last_blight < u32::MAX,
                None => true,
            },
        ensures
            final(self).wf(),
            final(self).page == old(self).page + 1,
            exists|d: u32| 5 <= d < 20 && #[trigger] State::food_outcome(*old(self), *final(self), d),
            final(self).food.max == old(self).food.max,
            final(self).health == old(self).health,
            final(self).cat == old(self).cat,
            final(self).start_page == old(self).start_page,
            final(self).is_dead == old(self).is_dead,
            final(self).has_a_cold == old(self).has_a_cold,
            final(self).last_cook_was_blighted == old(self).last_cook_was_blighted,
            old(self).farm is None ==> final(self).farm is None,
            old(self).farm is Some ==> {
                let pre = old(self).farm->0;
                let post = final(self).farm->0;
                &&& final(self).farm is Some
                &&& post.days_since_last_blight == if any_blighted(pre.tiles@) {
                    0int
                } else {
                    pre.days_since_last_blight + 1
                }
                &&& (post.tiles@ == swept(pre.tiles@) || (post.days_since_last_blight
                    > BLIGHT_GRACE_DAYS && post.tiles@ == seeded(swept(pre.tiles@))))
            },
    {
        self.page = self.page + 1;
        let d = rng_range(&mut self.rng, 5, 20);
        if self.inventory.remove_edible() {
            self.food.add(d);
        } else {
            self.food.subn(d);
        }
        match &mut self.farm {
            Some(f) => {
                f.end_of_day(&mut self.rng);
            },
            None => {},
        }
        proof {
            assert(State::food_outcome(*old(self), *self, d));
        }
    }

    /// The lines of the cooking-day dialogue for a given total count of
    /// raw potatoes (of both kinds together): a count line appears only
    /// when something was there to count, singular when it was one potato.
    pub open spec fn cook_lines(page: int, total: int) -> Seq<LineV> {
        seq![
            page_line(page),
            plain("I decided to spend the day cooking"@, crate::dialogue::TextColor::White),
            plain(""@, crate::dialogue::TextColor::White),
        ] + (if total == 0 {
            Seq::<LineV>::empty()
        } else if total == 1 {
            seq![plain("I only had a single potato..."@, crate::dialogue::TextColor::White)]
        } else {
            seq![
                plain(
                    "I counted a total of "@ + dec_digits(total) + " potatoes"@,
                    crate::dialogue::TextColor::White,
                ),
            ]
        }) + seq![
            plain(""@, crate::dialogue::TextColor::White),
            plain("The house smelled amazing."@, crate::dialogue::TextColor::White),
        ]
    }

    /// Spend the day cooking: every raw potato of either kind becomes a
    /// cooked one, the blight tag is dropped (but remembered in
    /// `last_cook_was_blighted`), and the day's diary entry is returned.
    pub fn cook(&mut self) -> (d: Dialogue)
        requires
            old(self).wf(),
            count_in(old(self).inventory@, Item::RawPotato) + count_in(
                old(self).inventory@,
                Item::RawPotatoBlight,
            ) + count_in(old(self).inventory@, Item::CookedPotato) <= usize::MAX,
        ensures
            final(self).wf(),
            count_in(final(self).inventory@, Item::RawPotato) == 0,
            count_in(final(self).inventory@, Item::RawPotatoBlight) == 0,
            count_in(final(self).inventory@, Item::CookedPotato) == count_in(
                old(self).inventory@,
                Item::CookedPotato,
            ) + count_in(old(self).inventory@, Item::RawPotato) + count_in(
                old(self).inventory@,
                Item::RawPotatoBlight,
            ),
            forall|it: Item|
                it != Item::RawPotato && it != Item::RawPotatoBlight && it != Item::CookedPotato
                    ==> #[trigger] count_in(final(self).inventory@, it) == count_in(
                    old(self).inventory@,
                    it,
                ),
            final(self).last_cook_was_blighted == (count_in(
                old(self).inventory@,
                Item::RawPotatoBlight,
            ) > 0),
            d@ =~~= State::cook_lines(
                old(self).page as int,
                (count_in(old(self).inventory@, Item::RawPotato) + count_in(
                    old(self).inventory@,
                    Item::RawPotatoBlight,
                )) as int,
            ),
            final(self).page == old(self).page,
            final(self).health == old(self).health,
            final(self).food == old(self).food,
            final(self).cat == old(self).cat,
            final(self).farm == old(self).farm,
            final(self).start_page == old(self).start_page,
            final(self).is_dead == old(self).is_dead,
            final(self).has_a_cold == old(self).has_a_cold,
    {
        let raw = self.inventory.count(Item::RawPotato);
        let raw_blight = self.inventory.count(Item::RawPotatoBlight);
        let total = raw + raw_blight;
        let mut d = Dialogue::new();
        d.page(self.page);
        d.text("I decided to spend the day cooking");
        d.text("");
        if total == 1 {
            d.text("I only had a single potato...");
        } else if total > 1 {
            let mut s = String::from_str("I counted a total of ");
            let digits = num_string(total as u64);
            s.append(digits.as_str());
            s.append(" potatoes");
            d.color_text(s.as_str(), crate::dialogue::TextColor::White);
        }
        d.text("");
        d.text("The house smelled amazing.");
        self.last_cook_was_blighted = raw_blight > 0;
        self.inventory.cook_all();
        d
    }
}

} // verus!
