use potat::farm::Farm;
use potat::farm::FARM_SIZE;
use potat::farm::POTATO_MATURE_AGE;
use potat::farm::Tile;
use potat::inventory::Inventory;
use potat::inventory::Item;
use potat::rng::rng_from_seed;

fn tile(farm: &Farm, x: usize, y: usize) -> Tile {
    farm.tiles[x * FARM_SIZE + y]
}

fn set_tile(farm: &mut Farm, x: usize, y: usize, t: Tile) {
    farm.tiles[x * FARM_SIZE + y] = t;
}

#[test]
fn fresh_farm_places_the_preset_potatoes() {
    let farm = Farm::default();
    assert_eq!(farm.days_since_last_blight, 0);
    assert_eq!(tile(&farm, 0, 0), Tile::Potato { age: 5, blight: false });
    assert_eq!(tile(&farm, 1, 0), Tile::Potato { age: 5, blight: false });
    assert_eq!(tile(&farm, 1, 1), Tile::Potato { age: 5, blight: false });
    assert_eq!(tile(&farm, 2, 2), Tile::Potato { age: 1, blight: false });
    assert_eq!(tile(&farm, 2, 3), Tile::Potato { age: 1, blight: false });
    assert_eq!(tile(&farm, 3, 2), Tile::Potato { age: 1, blight: false });
    assert_eq!(tile(&farm, 6, 4), Tile::Potato { age: 2, blight: false });
    assert_eq!(tile(&farm, 6, 5), Tile::Potato { age: 2, blight: false });
    assert_eq!(tile(&farm, 8, 1), Tile::Potato { age: 3, blight: false });
    assert_eq!(tile(&farm, 9, 2), Tile::Potato { age: 3, blight: false });
    assert_eq!(tile(&farm, 4, 4), Tile::Dirt);
}

#[test]
fn a_blight_free_day_grows_every_potato_by_one() {
    let mut farm = Farm::default();
    let before = farm.tiles.clone();
    let mut rng = rng_from_seed(7);
    farm.end_of_day(&mut rng);
    assert_eq!(farm.days_since_last_blight, 1);
    for k in 0..before.len() {
        match before[k] {
            Tile::Dirt => assert_eq!(farm.tiles[k], Tile::Dirt),
            Tile::Potato { age, blight } => {
                let expected = if age < POTATO_MATURE_AGE { age + 1 } else { age };
                assert_eq!(farm.tiles[k], Tile::Potato { age: expected, blight });
            }
        }
    }
}

#[test]
fn blight_sticks_and_spreads_to_diagonal_neighbours_only() {
    let mut farm = Farm::default();
    // a blighted potato with potato neighbours on the diagonal and the axis
    set_tile(&mut farm, 5, 5, Tile::Potato { age: 2, blight: true });
    set_tile(&mut farm, 4, 4, Tile::Potato { age: 1, blight: false });
    set_tile(&mut farm, 4, 5, Tile::Potato { age: 1, blight: false });
    set_tile(&mut farm, 6, 6, Tile::Potato { age: 1, blight: false });
    let mut rng = rng_from_seed(3);
    farm.end_of_day(&mut rng);
    // the source keeps its blight
    assert_eq!(tile(&farm, 5, 5), Tile::Potato { age: 3, blight: true });
    // diagonal neighbours are infected
    assert_eq!(tile(&farm, 4, 4), Tile::Potato { age: 2, blight: true });
    assert_eq!(tile(&farm, 6, 6), Tile::Potato { age: 2, blight: true });
    // a neighbour sharing a row or column is not
    assert_eq!(tile(&farm, 4, 5), Tile::Potato { age: 2, blight: false });
    // a day that started with blight resets the counter
    assert_eq!(farm.days_since_last_blight, 0);
}

#[test]
fn harvesting_a_mature_potato_yields_potatoes_and_seeds() {
    let mut farm = Farm::default();
    let mut inv = Inventory::new();
    let mut rng = rng_from_seed(11);
    assert_eq!(tile(&farm, 0, 0), Tile::Potato { age: 5, blight: false });
    farm.execute(0, 0, &mut inv, &mut rng);
    assert_eq!(tile(&farm, 0, 0), Tile::Dirt);
    let potatoes = inv.count(Item::RawPotato);
    let seeds = inv.count(Item::Seeds);
    assert!(potatoes == 2 || potatoes == 3);
    assert!(seeds == 1 || seeds == 2);
    assert_eq!(inv.count(Item::RawPotatoBlight), 0);
}

#[test]
fn harvesting_a_blighted_potato_taints_the_yield() {
    let mut farm = Farm::default();
    set_tile(&mut farm, 4, 4, Tile::Potato { age: 5, blight: true });
    let mut inv = Inventory::new();
    let mut rng = rng_from_seed(11);
    farm.execute(4, 4, &mut inv, &mut rng);
    assert_eq!(tile(&farm, 4, 4), Tile::Dirt);
    let tainted = inv.count(Item::RawPotatoBlight);
    assert!(tainted == 2 || tainted == 3);
    assert_eq!(inv.count(Item::RawPotato), 0);
}

#[test]
fn planting_consumes_exactly_one_seed() {
    let mut farm = Farm::default();
    let mut inv = Inventory::new();
    inv.add(Item::Seeds, 2);
    let mut rng = rng_from_seed(5);
    farm.execute(4, 4, &mut inv, &mut rng);
    assert_eq!(tile(&farm, 4, 4), Tile::Potato { age: 0, blight: false });
    assert_eq!(inv.count(Item::Seeds), 1);
}

#[test]
fn acting_without_seeds_or_on_a_growing_potato_is_a_no_op() {
    let mut farm = Farm::default();
    let mut inv = Inventory::new();
    let mut rng = rng_from_seed(5);
    farm.execute(4, 4, &mut inv, &mut rng);
    assert_eq!(tile(&farm, 4, 4), Tile::Dirt);
    assert_eq!(inv.count(Item::Seeds), 0);
    farm.execute(2, 2, &mut inv, &mut rng);
    assert_eq!(tile(&farm, 2, 2), Tile::Potato { age: 1, blight: false });
}

#[test]
fn hover_prefers_a_mature_potato_over_dirt() {
    let farm = Farm::default();
    // the rectangle holds dirt and the mature potato at (1, 1)
    let r = farm.hover_tile(0, 1, 3, 3, true);
    assert_eq!(r, Some((1, 1)));
}

#[test]
fn hover_offers_dirt_only_with_a_seed_in_hand() {
    let farm = Farm::default();
    // the rectangle around (4, 4) holds only dirt
    assert_eq!(farm.hover_tile(4, 4, 6, 6, true), Some((4, 4)));
    assert_eq!(farm.hover_tile(4, 4, 6, 6, false), None);
}

#[test]
fn hover_ignores_growing_potatoes() {
    let farm = Farm::default();
    // the rectangle holds only the age-one potatoes around (2, 2)
    assert_eq!(farm.hover_tile(2, 2, 3, 4, false), None);
}

#[test]
fn tile_actions_match_their_state() {
    assert_eq!(Tile::Dirt.action_name(), Some("plant potato"));
    assert_eq!(Tile::Potato { age: 5, blight: false }.action_name(), Some("harvest potato"));
    assert_eq!(Tile::Potato { age: 3, blight: false }.action_name(), None);
    assert_eq!(Tile::default(), Tile::Dirt);
}

#[test]
fn hover_takes_the_first_mature_potato_in_scan_order() {
    let farm = Farm::default();
    // the rectangle holds dirt at (0, 1) and mature potatoes; the scan
    // starts at (0, 0)
    assert_eq!(farm.hover_tile(0, 0, 2, 2, true), Some((0, 0)));
}

#[test]
fn blight_may_be_seeded_after_the_grace_period() {
    let mut seeded_count = 0;
    let mut skipped_count = 0;
    for seed in 0..60u64 {
        let mut farm = Farm::default();
        farm.days_since_last_blight = 15;
        let mut rng = rng_from_seed(seed);
        farm.end_of_day(&mut rng);
        assert_eq!(farm.days_since_last_blight, 16);
        // the first potato in row-major order sits at (0, 0)
        match tile(&farm, 0, 0) {
            Tile::Potato { age: 5, blight } => {
                if blight {
                    seeded_count += 1;
                } else {
                    skipped_count += 1;
                }
            }
            other => panic!("unexpected tile {:?}", other),
        }
    }
    // a one-in-ten draw: over sixty seeds both outcomes must show up
    assert!(seeded_count > 0);
    assert!(skipped_count > 0);
}

#[test]
fn mice_leave_dirt_or_the_potato_it_found() {
    let mut farm = Farm::default();
    let before = farm.tiles.clone();
    let mut rng = rng_from_seed(99);
    farm.mice_raid(&mut rng);
    let mut destroyed = 0;
    for k in 0..before.len() {
        match before[k] {
            Tile::Dirt => assert_eq!(farm.tiles[k], Tile::Dirt),
            Tile::Potato { .. } => {
                if farm.tiles[k] == Tile::Dirt {
                    destroyed += 1;
                } else {
                    assert_eq!(farm.tiles[k], before[k]);
                }
            }
        }
    }
    // twelve potatoes at fifty percent each: losing all or none is
    // possible but this seed loses some
    assert!(destroyed > 0);
}
