use potat::cat::Cat;
use potat::cat::CatState;
use potat::event::DayDialogue;
use potat::event::Event;
use potat::event::Outcome;
use potat::event::Visitor;
use potat::events::next_event;
use potat::farm::Farm;
use potat::inventory::Item;
use potat::state::DayAction;
use potat::state::State;

#[test]
fn next_event_is_reproducible_under_a_fixed_seed() {
    let mut a = State::new(5, 42);
    let mut b = State::new(5, 42);
    // drive both runs a few days forward identically
    for _ in 0..5 {
        let ea = next_event(&mut a);
        let eb = next_event(&mut b);
        assert_eq!(ea, eb);
        a.end_of_day();
        b.end_of_day();
        assert_eq!(a.page, b.page);
        assert_eq!(a.food.current, b.food.current);
    }
}

#[test]
fn the_first_day_always_brings_the_old_friend() {
    for seed in 0..20u64 {
        let mut s = State::new(5, seed);
        assert_eq!(next_event(&mut s), Event::Visitor(Visitor::OldFriend));
    }
}

#[test]
fn the_farm_unlocks_on_the_fixed_day_offset() {
    for seed in 0..20u64 {
        let mut s = State::new(5, seed);
        s.page = 7;
        assert_eq!(next_event(&mut s), Event::UnlockFarm);
    }
}

#[test]
fn a_carried_cold_always_recurs() {
    for seed in 0..20u64 {
        let mut s = State::new(5, seed);
        s.page = 9;
        s.has_a_cold = true;
        assert_eq!(next_event(&mut s), Event::Cold);
    }
}

#[test]
fn a_quiet_day_without_hazards_brings_nothing() {
    // past the scripted days, with no farm, no cold and a small larder,
    // no probabilistic rule applies except the trader window
    let mut s = State::new(5, 1);
    s.page = 9;
    let e = next_event(&mut s);
    assert!(e == Event::Nothing || e == Event::Visitor(Visitor::Trader));
}

#[test]
fn only_a_headache_suppresses_actions() {
    assert!(!Event::Headache.can_execute_action());
    assert!(Event::Nothing.can_execute_action());
    assert!(Event::Raiders.can_execute_action());
    assert!(Event::Cold.can_execute_action());
}

#[test]
fn outcomes_follow_the_choice() {
    let s = State::new(5, 1);
    assert_eq!(
        Event::Visitor(Visitor::OldFriend).outcome(0, &s),
        Outcome::GainItem(Item::Seeds, 10)
    );
    assert_eq!(
        Event::Visitor(Visitor::Trader).outcome(1, &s),
        Outcome::Trade { give: Item::CookedPotato, give_count: 10, get: Item::Seeds, get_count: 10 }
    );
    assert_eq!(
        Event::Visitor(Visitor::Trader).outcome(2, &s),
        Outcome::Trade { give: Item::CookedPotato, give_count: 500, get: Item::Gun, get_count: 1 }
    );
    assert_eq!(Event::Visitor(Visitor::Trader).outcome(0, &s), Outcome::NoOp);
    assert_eq!(Event::Nothing.outcome(0, &s), Outcome::RegainHealth(1));
    assert_eq!(Event::Headache.outcome(0, &s), Outcome::NoOp);
    assert_eq!(Event::CatVisit.outcome(1, &s), Outcome::AdoptCat);
    assert_eq!(Event::CatVisit.outcome(2, &s), Outcome::ChaseCat);
    assert_eq!(Event::Raiders.outcome(1, &s), Outcome::LoseHealth(30));
    assert_eq!(Event::Raiders.outcome(2, &s), Outcome::LoseItems(Item::CookedPotato, 70));
    assert_eq!(Event::UnlockFarm.outcome(0, &s), Outcome::UnlockFarm);
    assert_eq!(Event::Cold.outcome(0, &s), Outcome::CatchCold);
    assert_eq!(Event::Mice.outcome(0, &s), Outcome::MiceRaid);
    let mut with_cat = State::new(5, 1);
    with_cat.cat = CatState::Cat(Cat {});
    assert_eq!(Event::Mice.outcome(0, &with_cat), Outcome::NoOp);
    assert_eq!(
        Event::Raiders.outcome(2, &with_cat),
        Outcome::LoseItems(Item::CookedPotato, 100)
    );
}

#[test]
fn refusing_raiders_at_low_health_is_fatal() {
    let mut s = State::new(5, 1);
    s.health.current = 30;
    Outcome::LoseHealth(30).apply(&mut s);
    assert_eq!(s.health.current, 0);
    assert!(s.is_dead);
    let mut healthy = State::new(5, 1);
    Outcome::LoseHealth(30).apply(&mut healthy);
    assert_eq!(healthy.health.current, 20);
    assert!(!healthy.is_dead);
}

#[test]
fn the_trade_hands_goods_over_even_when_the_price_is_short() {
    let mut s = State::new(5, 1);
    s.inventory.add(Item::CookedPotato, 3);
    Outcome::Trade { give: Item::CookedPotato, give_count: 10, get: Item::Seeds, get_count: 10 }
        .apply(&mut s);
    assert_eq!(s.inventory.count(Item::CookedPotato), 3);
    assert_eq!(s.inventory.count(Item::Seeds), 10);
}

#[test]
fn unlocking_the_farm_installs_the_preset_grid() {
    let mut s = State::new(5, 1);
    Outcome::UnlockFarm.apply(&mut s);
    let farm = s.farm.as_ref().expect("farm should exist");
    assert_eq!(farm.days_since_last_blight, 0);
    assert_eq!(farm.tiles, Farm::default().tiles);
}

#[test]
fn catching_a_cold_sets_the_flag() {
    let mut s = State::new(5, 1);
    Outcome::CatchCold.apply(&mut s);
    assert!(s.has_a_cold);
    assert_eq!(s.health.current, 50);
}

#[test]
fn adopting_or_chasing_the_cat_settles_its_state() {
    let mut s = State::new(5, 1);
    assert!(!s.cat.has_visited());
    Outcome::AdoptCat.apply(&mut s);
    assert!(s.cat.has_visited());
    assert!(s.cat.get().is_some());
    Outcome::ChaseCat.apply(&mut s);
    assert!(s.cat.has_visited());
    assert!(s.cat.get().is_none());
}

#[test]
fn a_day_without_edibles_costs_five_to_nineteen_food() {
    let mut s = State::new(5, 9);
    s.inventory.remove(Item::CanOfBeans, 5);
    s.food.current = 30;
    s.end_of_day();
    assert_eq!(s.page, 6);
    assert!(s.food.current <= 25);
    assert!(s.food.current >= 11);
}

#[test]
fn starvation_saturates_food_at_zero() {
    let mut s = State::new(5, 9);
    s.inventory.remove(Item::CanOfBeans, 5);
    s.food.current = 3;
    s.end_of_day();
    assert_eq!(s.food.current, 0);
}

#[test]
fn an_edible_day_feeds_instead_of_starving() {
    let mut s = State::new(5, 9);
    s.food.current = 50;
    s.end_of_day();
    assert_eq!(s.inventory.count(Item::CanOfBeans), 4);
    assert!(s.food.current >= 55);
    assert!(s.food.current <= 69);
}

#[test]
fn cooking_merges_the_raw_stock_and_remembers_the_taint() {
    let mut s = State::new(5, 1);
    s.inventory.add(Item::RawPotato, 2);
    s.inventory.add(Item::RawPotatoBlight, 1);
    let d = s.cook();
    assert_eq!(s.inventory.count(Item::CookedPotato), 3);
    assert_eq!(s.inventory.count(Item::RawPotato), 0);
    assert_eq!(s.inventory.count(Item::RawPotatoBlight), 0);
    assert!(s.last_cook_was_blighted);
    assert_eq!(d.line(0).str(), "Page 5");
    assert_eq!(d.line(1).str(), "I decided to spend the day cooking");
    assert_eq!(d.line(3).str(), "I counted a total of 3 potatoes");
    assert_eq!(d.line(5).str(), "The house smelled amazing.");
}

#[test]
fn cooking_a_single_clean_potato_reads_differently() {
    let mut s = State::new(5, 1);
    s.inventory.add(Item::RawPotato, 1);
    let d = s.cook();
    assert!(!s.last_cook_was_blighted);
    assert_eq!(d.line(3).str(), "I only had a single potato...");
}

#[test]
fn action_availability_follows_stock_farm_and_event() {
    let mut s = State::new(5, 1);
    assert!(!s.can_cook(&Event::Nothing));
    assert!(!s.can_tend_farm(&Event::Nothing));
    s.inventory.add(Item::RawPotato, 1);
    s.farm = Some(Farm::default());
    assert!(s.can_cook(&Event::Nothing));
    assert!(s.can_tend_farm(&Event::Nothing));
    assert!(!s.can_cook(&Event::Headache));
    assert!(!s.can_tend_farm(&Event::Headache));
    assert!(matches!(DayAction::Next, DayAction::Next));
}

#[test]
fn the_trader_prompt_scales_with_the_larder() {
    let mut s = State::new(5, 1);
    s.page = 15;
    match Event::Visitor(Visitor::Trader).dialogue(&s) {
        DayDialogue::Choice(p) => {
            // five cans of beans buy nothing: no options, but skippable
            assert!(p.skippable);
            assert_eq!(p.options.len(), 0);
        }
        DayDialogue::Plain(_) => panic!("the trader should offer a prompt"),
    }
    s.inventory.add(Item::CookedPotato, 600);
    match Event::Visitor(Visitor::Trader).dialogue(&s) {
        DayDialogue::Choice(p) => {
            assert!(!p.skippable);
            assert_eq!(p.options.len(), 2);
            assert_eq!(p.options[0].index, 1);
            assert_eq!(p.options[0].text, "10 potato seeds for 10 cooked potatoes");
            assert_eq!(p.options[1].index, 2);
            assert_eq!(p.options[1].text, "a gun for 500 potatoes");
        }
        DayDialogue::Plain(_) => panic!("the trader should offer a prompt"),
    }
}

#[test]
fn raiders_back_off_from_a_gun() {
    let mut s = State::new(5, 1);
    s.inventory.add(Item::Gun, 1);
    match Event::Raiders.dialogue(&s) {
        DayDialogue::Choice(p) => {
            assert!(p.skippable);
            assert_eq!(p.options.len(), 0);
            assert_eq!(p.lines.len(), 5);
        }
        DayDialogue::Plain(_) => panic!("the raiders should offer a prompt"),
    }
}

#[test]
fn raiders_demand_more_with_a_cat_to_threaten() {
    let mut s = State::new(5, 1);
    s.cat = CatState::Cat(Cat {});
    s.inventory.add(Item::CookedPotato, 200);
    match Event::Raiders.dialogue(&s) {
        DayDialogue::Choice(p) => {
            assert!(!p.skippable);
            assert_eq!(p.options.len(), 2);
            assert_eq!(p.options[1].text, "Give 100 potatoes");
        }
        DayDialogue::Plain(_) => panic!("the raiders should offer a prompt"),
    }
}

#[test]
fn the_old_friend_page_reads_as_written() {
    let mut s = State::new(5, 1);
    s.page = 5;
    match Event::Visitor(Visitor::OldFriend).dialogue(&s) {
        DayDialogue::Plain(d) => {
            assert_eq!(d.len(), 8);
            assert_eq!(d.line(0).str(), "Page 5");
            assert_eq!(d.line(1).str(), "I went back to my barn.");
            assert_eq!(d.line(7).str(), "Got 10 seeds");
        }
        DayDialogue::Choice(_) => panic!("the visit is a plain diary entry"),
    }
}

#[test]
fn the_intro_spans_four_pages() {
    let pages = potat::intro::intro_pages();
    assert_eq!(pages.len(), 4);
    assert_eq!(pages[0].line(0).str(), "Page 1");
    assert_eq!(pages[0].line(1).str(), "Uh. Dear diary? I guess?");
    assert_eq!(pages[2].line(1).str(), "At least I've been able to catch up on sleep.");
    assert_eq!(pages[3].line(0).str(), "Page 4");
}

#[test]
fn a_mice_raid_with_a_cat_changes_nothing() {
    let mut s = State::new(5, 1);
    s.farm = Some(Farm::default());
    s.cat = CatState::Cat(Cat {});
    let before = s.farm.as_ref().unwrap().tiles.clone();
    Outcome::MiceRaid.apply(&mut s);
    assert_eq!(s.farm.as_ref().unwrap().tiles, before);
}
