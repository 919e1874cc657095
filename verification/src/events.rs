//! The event selector: a fixed, ordered rule table and the daily draw over
//! it.
use crate::cat::CatState;
use crate::event::Event;
use crate::event::Visitor;
use crate::inventory::Item;
use crate::inventory::count_in;
use crate::rng::rng_ratio;
use crate::state::State;
use vstd::prelude::*;

verus! {

/// A rule's condition over the simulation state.
#[derive(Copy, Clone, Debug, PartialEq, Eq, Structural)]
pub enum Cond {
    /// The first simulated day of the run.
    FirstDay,
    /// The fixed day offset on which the farm unlocks.
    FarmUnlockDay,
    /// The player is carrying a cold.
    HasCold,
    /// The farm has been unlocked.
    HasFarm,
    /// The farm is unlocked and the cat has not come by yet.
    FarmAndCatNotVisited,
    /// More than five days into the run.
    TraderWindow,
    /// A stock of cooked potatoes worth raiding.
    PotatoWealth,
    /// The farm is unlocked and the cat's visit already happened.
    FarmAndCatVisited,
}

/// One rule: the event it selects, the condition under which it applies,
/// and its per-check chance as a ratio.
#[derive(Copy, Clone, Debug, PartialEq, Eq, Structural)]
pub struct E {
    pub event: Event,
    pub cond: Cond,
    pub chance_num: u32,
    pub chance_den: u32,
}

/// Whether a rule's condition holds of the state. No condition reads the
/// randomness capability, so drawing trials never changes what applies.
pub open spec fn cond_holds(c: Cond, s: State) -> bool {
    match c {
        Cond::FirstDay => s.page == s.start_page,
        Cond::FarmUnlockDay => s.page - s.start_page == 2,
        Cond::HasCold => s.has_a_cold,
        Cond::HasFarm => s.farm is Some,
        Cond::FarmAndCatNotVisited => s.farm is Some && s.cat is NotVisited,
        Cond::TraderWindow => s.page - s.start_page > 5,
        Cond::PotatoWealth => count_in(s.inventory@, Item::CookedPotato) > 50,
        Cond::FarmAndCatVisited => s.farm is Some && !(s.cat is NotVisited),
    }
}

/// The fixed rule table, in priority order: the forced story beats first
/// (the scripted first-day visitor, the farm unlock, a cold that is
/// already being carried), then the probabilistic background hazards.
pub open spec fn spec_table() -> Seq<E> {
    seq![
        E { event: Event::Visitor(Visitor::OldFriend), cond: Cond::FirstDay, chance_num: 1, chance_den: 1 },
        E { event: Event::UnlockFarm, cond: Cond::FarmUnlockDay, chance_num: 1, chance_den: 1 },
        E { event: Event::Cold, cond: Cond::HasCold, chance_num: 1, chance_den: 1 },
        E { event: Event::Cold, cond: Cond::HasFarm, chance_num: 1, chance_den: 10 },
        E {
            event: Event::CatVisit,
            cond: Cond::FarmAndCatNotVisited,
            chance_num: 1,
            chance_den: 10,
        },
        E {
            event: Event::Visitor(Visitor::Trader),
            cond: Cond::TraderWindow,
            chance_num: 1,
            chance_den: 10,
        },
        E { event: Event::Raiders, cond: Cond::PotatoWealth, chance_num: 1, chance_den: 10 },
        E { event: Event::Mice, cond: Cond::FarmAndCatVisited, chance_num: 1, chance_den: 20 },
        E { event: Event::Headache, cond: Cond::HasFarm, chance_num: 1, chance_den: 20 },
    ]
}

/// An event that some rule of the table could have selected in state `s`.
pub open spec fn event_fireable(e: Event, s: State) -> bool {
    exists|i: int|
        0 <= i < spec_table().len() && (#[trigger] spec_table()[i]).event == e && cond_holds(
            spec_table()[i].cond,
            s,
        )
}

/// The rule table as a vector, exactly as [`spec_table`] lists it.
pub fn event_table() -> (t: Vec<E>)
    ensures
        t@ =~= spec_table(),
{
    let mut t: Vec<E> = Vec::new();
    t.push(
        E { event: Event::Visitor(Visitor::OldFriend), cond: Cond::FirstDay, chance_num: 1, chance_den: 1 },
    );
    t.push(E { event: Event::UnlockFarm, cond: Cond::FarmUnlockDay, chance_num: 1, chance_den: 1 });
    t.push(E { event: Event::Cold, cond: Cond::HasCold, chance_num: 1, chance_den: 1 });
    t.push(E { event: Event::Cold, cond: Cond::HasFarm, chance_num: 1, chance_den: 10 });
    t.push(
        E { event: Event::CatVisit, cond: Cond::FarmAndCatNotVisited, chance_num: 1, chance_den: 10 },
    );
    t.push(
        E {
            event: Event::Visitor(Visitor::Trader),
            cond: Cond::TraderWindow,
            chance_num: 1,
            chance_den: 10,
        },
    );
    t.push(E { event: Event::Raiders, cond: Cond::PotatoWealth, chance_num: 1, chance_den: 10 });
    t.push(E { event: Event::Mice, cond: Cond::FarmAndCatVisited, chance_num: 1, chance_den: 20 });
    t.push(E { event: Event::Headache, cond: Cond::HasFarm, chance_num: 1, chance_den: 20 });
    t
}

/// Evaluate a rule condition on the state.
pub fn cond_eval(c: &Cond, state: &State) -> (r: bool)
    requires
        state.wf(),
    ensures
        r == cond_holds(*c, *state),
{
    match c {
        Cond::FirstDay => state.page == state.start_page,
        Cond::FarmUnlockDay => state.day_delta() == 2,
        Cond::HasCold => state.has_a_cold,
        Cond::HasFarm => state.can_farm(),
        Cond::FarmAndCatNotVisited => state.can_farm() && !state.cat.has_visited(),
        Cond::TraderWindow => state.day_delta() > 5,
        Cond::PotatoWealth => state.inventory.count(Item::CookedPotato) > 50,
        Cond::FarmAndCatVisited => state.can_farm() && state.cat.has_visited(),
    }
}

/// Select the day's event: up to three passes over the rule table in
/// order, each applicable rule getting an independent draw at its chance
/// per pass, the first success winning. The forced rules at the head of
/// the table cannot be pre-empted: a scripted first-day visitor, the farm
/// unlock, and a carried cold select their event with certainty. If no
/// rule fires, nothing happened. Only the randomness capability is
/// mutated; with a fixed seed and fixed state the selection is a function
/// of the draws alone.
pub fn next_event(state: &mut State) -> (e: Event)
    requires
        old(state).wf(),
    ensures
        *final(state) == (State { rng: final(state).rng, ..*old(state) }),
        final(state).wf(),
        cond_holds(Cond::FirstDay, *old(state)) ==> e == Event::Visitor(Visitor::OldFriend),
        !cond_holds(Cond::FirstDay, *old(state)) && cond_holds(Cond::FarmUnlockDay, *old(state))
            ==> e == Event::UnlockFarm,
        !cond_holds(Cond::FirstDay, *old(state)) && !cond_holds(Cond::FarmUnlockDay, *old(state))
            && cond_holds(Cond::HasCold, *old(state)) ==> e == Event::Cold,
        e == Event::Nothing || event_fireable(e, *old(state)),
{
    let table = event_table();
    let ghost s0 = *state;
    let mut pass: usize = 0;
    while pass < 3
        invariant
            table@ =~= spec_table(),
            *state == (State { rng: state.rng, ..s0 }),
            s0 == *old(state),
            s0.wf(),
            pass > 0 ==> !cond_holds(Cond::FirstDay, s0) && !cond_holds(Cond::FarmUnlockDay, s0)
                && !cond_holds(Cond::HasCold, s0),
        decreases 3 - pass,
    {
        let mut i: usize = 0;
        while i < table.len()
            invariant
                table@ =~= spec_table(),
                *state == (State { rng: state.rng, ..s0 }),
                s0 == *old(state),
                s0.wf(),
                i <= table@.len(),
                i > 0 ==> !cond_holds(Cond::FirstDay, s0),
                i > 1 ==> !cond_holds(Cond::FarmUnlockDay, s0),
                i > 2 ==> !cond_holds(Cond::HasCold, s0),
            decreases table@.len() - i,
        {
            let rule = table[i];
            if cond_eval(&rule.cond, state) {
                if rng_ratio(&mut state.rng, rule.chance_num, rule.chance_den) {
                    proof {
                        assert(spec_table()[i as int].event == rule.event && cond_holds(
                            spec_table()[i as int].cond,
                            s0,
                        ));
                    }
                    return rule.event;
                }
            }
            i += 1;
        }
        pass += 1;
    }
    Event::Nothing
}

} // verus!
