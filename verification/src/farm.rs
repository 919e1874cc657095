//! The farm automaton: a fixed grid of tiles with growth, blight contagion,
//! planting and harvesting.
//!
//! The grid is a flat vector in row-major order (row `x`, column `y`, index
//! `x * FARM_SIZE + y`). One day tick sweeps the grid in that order; a
//! blighted tile spreads blight to its strict diagonal neighbours, so a mark
//! placed early in the sweep can cascade further within the same tick. The
//! neighbour set is the strict one: a candidate tile is infected only when
//! it differs from the source in *both* coordinates, which selects the four
//! diagonal corners, not all eight surrounding tiles.
use crate::inventory::Inventory;
use crate::inventory::Item;
use crate::inventory::count_in;
use crate::rng::rng_ratio;
use rand::rngs::StdRng;
use vstd::prelude::*;

verus! {

/// Grid side length.
pub const FARM_SIZE: usize = 10;

/// Number of tiles in the grid.
pub const FARM_TILES: usize = 100;

/// Age at which a potato is ready to harvest; growth saturates here.
pub const POTATO_MATURE_AGE: u8 = 5;

/// Number of consecutive blight-free days after which spontaneous blight
/// may be seeded.
pub const BLIGHT_GRACE_DAYS: u32 = 10;

/// One grid cell.
#[derive(Copy, Clone, Debug, PartialEq, Eq, Structural)]
pub enum Tile {
    Dirt,
    Potato { age: u8, blight: bool },
}

impl Tile {
    /// A tile's age never exceeds the mature age.
    pub open spec fn ok(self) -> bool {
        match self {
            Tile::Dirt => true,
            Tile::Potato { age, blight } => age <= POTATO_MATURE_AGE,
        }
    }

    /// Whether the tile carries blight.
    pub open spec fn is_blighted(self) -> bool {
        match self {
            Tile::Dirt => false,
            Tile::Potato { age, blight } => blight,
        }
    }

    /// Whether the tile holds a potato (of any age).
    pub open spec fn is_potato(self) -> bool {
        self is Potato
    }

    /// The label of the action a player could take on this tile, if any:
    /// a mature potato can be harvested, bare dirt can be planted.
    pub fn action_name(&self) -> (r: Option<&'static str>)
        ensures
            match *self {
                Tile::Potato { age, blight } => if age == POTATO_MATURE_AGE {
                    r is Some && r->0@ == "harvest potato"@
                } else {
                    r is None
                },
                Tile::Dirt => r is Some && r->0@ == "plant potato"@,
            },
    {
        match self {
            Tile::Potato { age, blight } => if *age == POTATO_MATURE_AGE {
                Some("harvest potato")
            } else {
                None
            },
            Tile::Dirt => Some("plant potato"),
        }
    }
}

impl Default for Tile {
    /// A fresh cell is bare dirt.
    fn default() -> (t: Tile)
        ensures
            t == Tile::Dirt,
    {
        Tile::Dirt
    }
}

/// The tile grown by one day: a potato's age rises by one, saturating at
/// the mature age; dirt is unchanged; blight is untouched here.
pub open spec fn grown(t: Tile) -> Tile {
    match t {
        Tile::Dirt => Tile::Dirt,
        Tile::Potato { age, blight } => Tile::Potato {
            age: if age < POTATO_MATURE_AGE {
                (age + 1) as u8
            } else {
                age
            },
            blight,
        },
    }
}

/// The tile with blight set, when it holds a potato.
pub open spec fn marked(t: Tile) -> Tile {
    match t {
        Tile::Dirt => Tile::Dirt,
        Tile::Potato { age, blight } => Tile::Potato { age, blight: true },
    }
}

/// Mark the cell at row `x`, column `y` blighted if it holds a potato;
/// out-of-bounds coordinates leave the grid unchanged.
pub open spec fn mark_cell(s: Seq<Tile>, x: int, y: int) -> Seq<Tile> {
    if 0 <= x < FARM_SIZE && 0 <= y < FARM_SIZE {
        s.update(x * FARM_SIZE + y, marked(s[x * FARM_SIZE + y]))
    } else {
        s
    }
}

/// Mark the four strict diagonal neighbours of `(x, y)`, in sweep order.
pub open spec fn mark_corners(s: Seq<Tile>, x: int, y: int) -> Seq<Tile> {
    mark_cell(mark_cell(mark_cell(mark_cell(s, x - 1, y - 1), x - 1, y + 1), x + 1, y - 1), x + 1, y + 1)
}

/// Process one cell of the daily sweep: grow it, and if it was blighted,
/// spread blight to its diagonal neighbours.
pub open spec fn tick_cell(s: Seq<Tile>, k: int) -> Seq<Tile> {
    match s[k] {
        Tile::Dirt => s,
        Tile::Potato { age, blight } => {
            let s1 = s.update(k, grown(s[k]));
            if blight {
                mark_corners(s1, k / (FARM_SIZE as int), k % (FARM_SIZE as int))
            } else {
                s1
            }
        },
    }
}

/// The grid after the first `k` cells of the daily sweep have been
/// processed in row-major order.
pub open spec fn sweep_upto(s: Seq<Tile>, k: nat) -> Seq<Tile>
    decreases k,
{
    if k == 0 {
        s
    } else {
        tick_cell(sweep_upto(s, (k - 1) as nat), k - 1)
    }
}

/// The grid after a full daily sweep.
pub open spec fn swept(s: Seq<Tile>) -> Seq<Tile> {
    sweep_upto(s, FARM_TILES as nat)
}

/// Whether any cell of the grid is blighted.
pub open spec fn any_blighted(s: Seq<Tile>) -> bool {
    exists|k: int| 0 <= k < s.len() && (#[trigger] s[k]).is_blighted()
}

/// `k` is the first potato cell of the grid in row-major order.
pub open spec fn is_first_potato(s: Seq<Tile>, k: int) -> bool {
    &&& 0 <= k < s.len()
    &&& s[k].is_potato()
    &&& forall|j: int| 0 <= j < k ==> !(#[trigger] s[j]).is_potato()
}

/// The grid with spontaneous blight seeded on its first potato cell, if it
/// has one.
pub open spec fn seeded(s: Seq<Tile>) -> Seq<Tile> {
    if exists|k: int| is_first_potato(s, k) {
        let k = choose|k: int| is_first_potato(s, k);
        s.update(k, marked(s[k]))
    } else {
        s
    }
}

/// The grid of tiles a fresh farm starts with: a handful of potatoes of
/// ages one to five at fixed coordinates, everything else dirt.
pub open spec fn preset_tile(k: int) -> Tile {
    if k == 0 || k == 10 || k == 11 {
        Tile::Potato { age: 5, blight: false }
    } else if k == 22 || k == 23 || k == 32 {
        Tile::Potato { age: 1, blight: false }
    } else if k == 64 || k == 65 {
        Tile::Potato { age: 2, blight: false }
    } else if k == 81 || k == 91 || k == 82 || k == 92 {
        Tile::Potato { age: 3, blight: false }
    } else {
        Tile::Dirt
    }
}

/// The age of a tile; dirt counts as zero.
pub open spec fn age_of(t: Tile) -> int {
    match t {
        Tile::Dirt => 0,
        Tile::Potato { age, blight } => age as int,
    }
}

proof fn lemma_mark_cell_weak(s: Seq<Tile>, x: int, y: int)
    requires
        s.len() == FARM_TILES,
    ensures
        mark_cell(s, x, y).len() == FARM_TILES,
        forall|j: int|
            0 <= j < FARM_TILES ==> (#[trigger] mark_cell(s, x, y)[j] == s[j] || mark_cell(s, x, y)[j]
                == marked(s[j])),
        forall|j: int|
            0 <= j < FARM_TILES && j != x * FARM_SIZE + y ==> #[trigger] mark_cell(s, x, y)[j]
                == s[j],
{
}

proof fn lemma_tick_cell_weak(s: Seq<Tile>, k: int)
    requires
        s.len() == FARM_TILES,
        0 <= k < FARM_TILES,
    ensures
        tick_cell(s, k).len() == FARM_TILES,
        tick_cell(s, k)[k] == grown(s[k]),
        forall|j: int|
            0 <= j < FARM_TILES && j != k ==> (#[trigger] tick_cell(s, k)[j] == s[j] || tick_cell(
                s,
                k,
            )[j] == marked(s[j])),
        !s[k].is_blighted() ==> forall|j: int|
            0 <= j < FARM_TILES && j != k ==> #[trigger] tick_cell(s, k)[j] == s[j],
{
    let x = k / (FARM_SIZE as int);
    let y = k % (FARM_SIZE as int);
    assert(marked(marked(s[k])) == marked(s[k]));
    match s[k] {
        Tile::Dirt => {},
        Tile::Potato { age, blight } => {
            let s1 = s.update(k, grown(s[k]));
            if blight {
                let s2 = mark_cell(s1, x - 1, y - 1);
                let s3 = mark_cell(s2, x - 1, y + 1);
                let s4 = mark_cell(s3, x + 1, y - 1);
                let s5 = mark_cell(s4, x + 1, y + 1);
                lemma_mark_cell_weak(s1, x - 1, y - 1);
                lemma_mark_cell_weak(s2, x - 1, y + 1);
                lemma_mark_cell_weak(s3, x + 1, y - 1);
                lemma_mark_cell_weak(s4, x + 1, y + 1);
                assert((x - 1) * FARM_SIZE + (y - 1) != k && (x - 1) * FARM_SIZE + (y + 1) != k && (
                x + 1) * FARM_SIZE + (y - 1) != k && (x + 1) * FARM_SIZE + (y + 1) != k) by {
                    assert(x * (FARM_SIZE as int) == k - y) by (nonlinear_arith)
                        requires
                            k == x * (FARM_SIZE as int) + y,
                    ;
                    assert((x - 1) * (FARM_SIZE as int) == x * (FARM_SIZE as int) - FARM_SIZE && (x
                        + 1) * (FARM_SIZE as int) == x * (FARM_SIZE as int) + FARM_SIZE)
                        by (nonlinear_arith);
                }
                assert forall|j: int| 0 <= j < FARM_TILES && j != k implies (#[trigger] s5[j]
                    == s[j] || s5[j] == marked(s[j])) by {
                    assert(s1[j] == s[j]);
                }
                assert(s5[k] == grown(s[k]));
            }
        },
    }
}

proof fn lemma_sweep_props(s: Seq<Tile>, k: nat)
    requires
        s.len() == FARM_TILES,
        k <= FARM_TILES,
        forall|j: int| 0 <= j < FARM_TILES ==> (#[trigger] s[j]).ok(),
    ensures
        sweep_upto(s, k).len() == FARM_TILES,
        forall|j: int|
            0 <= j < FARM_TILES ==> (#[trigger] sweep_upto(s, k)[j]).is_potato() == s[
                j
            ].is_potato(),
        forall|j: int| 0 <= j < FARM_TILES ==> (#[trigger] sweep_upto(s, k)[j]).ok(),
        forall|j: int|
            0 <= j < FARM_TILES ==> age_of(#[trigger] sweep_upto(s, k)[j]) == (if j < k && s[
                j
            ].is_potato() && age_of(s[j]) < POTATO_MATURE_AGE {
                age_of(s[j]) + 1
            } else {
                age_of(s[j])
            }),
        forall|j: int|
            0 <= j < FARM_TILES && (#[trigger] s[j]).is_blighted() ==> sweep_upto(
                s,
                k,
            )[j].is_blighted(),
        !any_blighted(s) ==> forall|j: int|
            0 <= j < FARM_TILES ==> #[trigger] sweep_upto(s, k)[j] == (if j < k {
                grown(s[j])
            } else {
                s[j]
            }),
    decreases k,
{
    if k > 0 {
        let km = (k - 1) as nat;
        lemma_sweep_props(s, km);
        let t = sweep_upto(s, km);
        lemma_tick_cell_weak(t, km as int);
        let t2 = sweep_upto(s, k);
        assert(t2 == tick_cell(t, km as int));
        assert forall|j: int| 0 <= j < FARM_TILES implies age_of(#[trigger] t2[j]) == (if j < k
            && s[j].is_potato() && age_of(s[j]) < POTATO_MATURE_AGE {
            age_of(s[j]) + 1
        } else {
            age_of(s[j])
        }) by {
            if j == km {
                assert(t2[j] == grown(t[j]));
            } else {
                assert(t2[j] == t[j] || t2[j] == marked(t[j]));
            }
        }
        assert forall|j: int| 0 <= j < FARM_TILES implies ((#[trigger] t2[j]).is_potato() == s[
        j].is_potato() && t2[j].ok()) by {
            if j == km {
                assert(t2[j] == grown(t[j]));
            } else {
                assert(t2[j] == t[j] || t2[j] == marked(t[j]));
            }
        }
        assert forall|j: int|
            0 <= j < FARM_TILES && (#[trigger] s[j]).is_blighted() implies t2[j].is_blighted() by {
            if j == km {
                assert(t2[j] == grown(t[j]));
            } else {
                assert(t2[j] == t[j] || t2[j] == marked(t[j]));
            }
        }
        if !any_blighted(s) {
            assert(!t[km as int].is_blighted());
            assert forall|j: int| 0 <= j < FARM_TILES implies #[trigger] t2[j] == (if j < k {
                grown(s[j])
            } else {
                s[j]
            }) by {
                if j == km {
                    assert(t2[j] == grown(t[j]) && t[j] == s[j]);
                }
            }
        }
    }
}

/// Once a tile is blighted, a day tick never clears it: blight survives the
/// growth-and-contagion sweep and any spontaneous seeding. Only an explicit
/// harvest or reset of the tile can take it away.
pub proof fn lemma_blight_never_clears(s: Seq<Tile>, j: int)
    requires
        s.len() == FARM_TILES,
        forall|i: int| 0 <= i < FARM_TILES ==> (#[trigger] s[i]).ok(),
        0 <= j < FARM_TILES,
        s[j].is_blighted(),
    ensures
        swept(s)[j].is_blighted(),
        seeded(swept(s))[j].is_blighted(),
{
    lemma_sweep_props(s, FARM_TILES as nat);
    let g = swept(s);
    if exists|k: int| is_first_potato(g, k) {
        let k = choose|k: int| is_first_potato(g, k);
        assert(seeded(g) == g.update(k, marked(g[k])));
        assert(marked(g[k]).is_blighted() || !g[k].is_potato());
    }
}

/// A day tick on a grid with no blight anywhere is pure growth: every
/// potato ages by exactly one, saturating at the mature age, and no tile
/// becomes blighted.
pub proof fn lemma_growth_without_blight(s: Seq<Tile>)
    requires
        s.len() == FARM_TILES,
        forall|i: int| 0 <= i < FARM_TILES ==> (#[trigger] s[i]).ok(),
        !any_blighted(s),
    ensures
        forall|j: int| 0 <= j < FARM_TILES ==> #[trigger] swept(s)[j] == grown(s[j]),
{
    lemma_sweep_props(s, FARM_TILES as nat);
}

/// A tile's age never exceeds the mature age: a day tick (sweep plus any
/// spontaneous seeding) keeps every tile within the age bound.
pub proof fn lemma_age_never_exceeds_mature(s: Seq<Tile>, j: int)
    requires
        s.len() == FARM_TILES,
        forall|i: int| 0 <= i < FARM_TILES ==> (#[trigger] s[i]).ok(),
        0 <= j < FARM_TILES,
    ensures
        swept(s)[j].ok(),
        seeded(swept(s))[j].ok(),
{
    lemma_sweep_props(s, FARM_TILES as nat);
    let g = swept(s);
    if exists|k: int| is_first_potato(g, k) {
        let k = choose|k: int| is_first_potato(g, k);
        assert(seeded(g) == g.update(k, marked(g[k])));
        assert(marked(g[k]).ok());
    }
}

proof fn lemma_first_potato_unique(s: Seq<Tile>, k1: int, k2: int)
    requires
        is_first_potato(s, k1),
        is_first_potato(s, k2),
    ensures
        k1 == k2,
{
    if k1 < k2 {
        assert(!s[k1].is_potato());
    } else if k2 < k1 {
        assert(!s[k2].is_potato());
    }
}

/// The potato farm: a square grid of tiles and the count of consecutive
/// days on which no blight was seen.
pub struct Farm {
    pub tiles: Vec<Tile>,
    pub days_since_last_blight: u32,
}

impl Farm {
    /// The farm invariant: a full grid whose tiles all satisfy the age
    /// bound.
    pub open spec fn wf(&self) -> bool {
        &&& self.tiles@.len() == FARM_TILES
        &&& forall|k: int| 0 <= k < FARM_TILES ==> (#[trigger] self.tiles@[k]).ok()
    }
}

impl Farm {
    /// Set the blight flag on the cell at `(x, y)` if it holds a potato.
    fn mark_one(&mut self, x: usize, y: usize)
        requires
            old(self).tiles@.len() == FARM_TILES,
            x < FARM_SIZE,
            y < FARM_SIZE,
        ensures
            final(self).tiles@ == mark_cell(old(self).tiles@, x as int, y as int),
            final(self).days_since_last_blight == old(self).days_since_last_blight,
    {
        let k = x * FARM_SIZE + y;
        match self.tiles[k] {
            Tile::Potato { age, blight } => {
                self.tiles[k] = Tile::Potato { age, blight: true };
            },
            Tile::Dirt => {
                proof {
                    assert(self.tiles@ =~= mark_cell(self.tiles@, x as int, y as int));
                }
            },
        }
    }

    /// Spread blight from `(x, y)` to its strict diagonal neighbours.
    fn blight_around(&mut self, x: usize, y: usize)
        requires
            old(self).tiles@.len() == FARM_TILES,
            x < FARM_SIZE,
            y < FARM_SIZE,
        ensures
            final(self).tiles@ == mark_corners(old(self).tiles@, x as int, y as int),
            final(self).days_since_last_blight == old(self).days_since_last_blight,
    {
        proof {
            lemma_mark_cell_weak(self.tiles@, x as int - 1, y as int - 1);
        }
        if x > 0 && y > 0 {
            self.mark_one(x - 1, y - 1);
        }
        proof {
            lemma_mark_cell_weak(self.tiles@, x as int - 1, y as int + 1);
        }
        if x > 0 && y + 1 < FARM_SIZE {
            self.mark_one(x - 1, y + 1);
        }
        proof {
            lemma_mark_cell_weak(self.tiles@, x as int + 1, y as int - 1);
        }
        if x + 1 < FARM_SIZE && y > 0 {
            self.mark_one(x + 1, y - 1);
        }
        proof {
            lemma_mark_cell_weak(self.tiles@, x as int + 1, y as int + 1);
        }
        if x + 1 < FARM_SIZE && y + 1 < FARM_SIZE {
            self.mark_one(x + 1, y + 1);
        }
    }

    /// Whether any tile currently carries blight.
    pub fn has_blight(&self) -> (r: bool)
        requires
            self.tiles@.len() == FARM_TILES,
        ensures
            r == any_blighted(self.tiles@),
    {
        let mut k: usize = 0;
        while k < FARM_TILES
            invariant
                self.tiles@.len() == FARM_TILES,
                k <= FARM_TILES,
                forall|j: int| 0 <= j < k ==> !(#[trigger] self.tiles@[j]).is_blighted(),
            decreases FARM_TILES - k,
        {
            match self.tiles[k] {
                Tile::Potato { age, blight } => if blight {
                    return true;
                },
                Tile::Dirt => {},
            }
            k += 1;
        }
        false
    }

    /// Seed blight on the first potato tile in row-major order, if any.
    fn seed_first_potato(&mut self)
        requires
            old(self).tiles@.len() == FARM_TILES,
        ensures
            final(self).tiles@ == seeded(old(self).tiles@),
            final(self).days_since_last_blight == old(self).days_since_last_blight,
    {
        let ghost s0 = self.tiles@;
        let mut k: usize = 0;
        while k < FARM_TILES
            invariant
                self.tiles@ == s0,
                old(self).tiles@ == s0,
                self.days_since_last_blight == old(self).days_since_last_blight,
                s0.len() == FARM_TILES,
                k <= FARM_TILES,
                forall|j: int| 0 <= j < k ==> !(#[trigger] s0[j]).is_potato(),
            decreases FARM_TILES - k,
        {
            match self.tiles[k] {
                Tile::Potato { age, blight } => {
                    self.tiles[k] = Tile::Potato { age, blight: true };
                    proof {
                        assert(is_first_potato(s0, k as int));
                        assert(exists|j: int| is_first_potato(s0, j));
                        let kc = choose|j: int| is_first_potato(s0, j);
                        lemma_first_potato_unique(s0, k as int, kc);
                        assert(self.tiles@ == s0.update(kc, marked(s0[kc])));
                    }
                    return ;
                },
                Tile::Dirt => {},
            }
            k += 1;
        }
        proof {
            assert forall|j: int| !is_first_potato(s0, j) by {
                if 0 <= j < FARM_TILES {
                    assert(!s0[j].is_potato());
                }
            }
        }
    }

    /// Whether the tile at `(x, y)` holds a potato ready to harvest.
    pub open spec fn mature_at(&self, x: int, y: int) -> bool {
        match self.tiles@[x * FARM_SIZE + y] {
            Tile::Potato { age, blight } => age == POTATO_MATURE_AGE,
            Tile::Dirt => false,
        }
    }

    /// Whether the tile at `(x, y)` is bare dirt.
    pub open spec fn dirt_at(&self, x: int, y: int) -> bool {
        self.tiles@[x * FARM_SIZE + y] == Tile::Dirt
    }

    /// Pick the actionable tile inside the reach rectangle
    /// `[min_x, max_x) x [min_y, max_y)`, scanning rows first: a mature
    /// potato anywhere in the rectangle beats bare dirt, and dirt is a
    /// candidate only when the player holds at least one seed. Returns the
    /// first such tile in scan order, or `None` when nothing qualifies.
    pub fn hover_tile(
        &self,
        min_x: usize,
        min_y: usize,
        max_x: usize,
        max_y: usize,
        has_seeds: bool,
    ) -> (r: Option<(usize, usize)>)
        requires
            self.wf(),
            max_x <= FARM_SIZE,
            max_y <= FARM_SIZE,
        ensures
            match r {
                Some(p) => {
                    let (x, y) = p;
                    &&& min_x <= x < max_x
                    &&& min_y <= y < max_y
                    &&& if self.mature_at(x as int, y as int) {
                        forall|x2: int, y2: int|
                            min_x <= x2 < max_x && min_y <= y2 < max_y && (x2 < x || (x2 == x && y2
                                < y)) ==> !self.mature_at(x2, y2)
                    } else {
                        &&& has_seeds
                        &&& self.dirt_at(x as int, y as int)
                        &&& forall|x2: int, y2: int|
                            min_x <= x2 < max_x && min_y <= y2 < max_y ==> !self.mature_at(x2, y2)
                        &&& forall|x2: int, y2: int|
                            min_x <= x2 < max_x && min_y <= y2 < max_y && (x2 < x || (x2 == x && y2
                                < y)) ==> !self.dirt_at(x2, y2)
                    }
                },
                None => forall|x2: int, y2: int|
                    min_x <= x2 < max_x && min_y <= y2 < max_y ==> !self.mature_at(x2, y2) && (
                    !has_seeds || !self.dirt_at(x2, y2)),
            },
    {
        let mut x = min_x;
        while x < max_x
            invariant
                self.wf(),
                max_x <= FARM_SIZE,
                max_y <= FARM_SIZE,
                min_x <= x,
                forall|x2: int, y2: int|
                    min_x <= x2 < x && x2 < max_x && min_y <= y2 < max_y ==> !self.mature_at(
                        x2,
                        y2,
                    ),
            decreases max_x - x,
        {
            let mut y = min_y;
            while y < max_y
                invariant
                    self.wf(),
                    max_x <= FARM_SIZE,
                    max_y <= FARM_SIZE,
                    min_x <= x < max_x,
                    min_y <= y,
                    forall|x2: int, y2: int|
                        min_x <= x2 < x && x2 < max_x && min_y <= y2 < max_y ==> !self.mature_at(
                            x2,
                            y2,
                        ),
                    forall|y2: int| min_y <= y2 < y && y2 < max_y ==> !self.mature_at(x as int, y2),
                decreases max_y - y,
            {
                match self.tiles[x * FARM_SIZE + y] {
                    Tile::Potato { age, blight } => if age == POTATO_MATURE_AGE {
                        return Some((x, y));
                    },
                    Tile::Dirt => {},
                }
                y += 1;
            }
            x += 1;
        }
        if !has_seeds {
            return None;
        }
        let mut x = min_x;
        while x < max_x
            invariant
                self.wf(),
                max_x <= FARM_SIZE,
                max_y <= FARM_SIZE,
                min_x <= x,
                has_seeds,
                forall|x2: int, y2: int|
                    min_x <= x2 < max_x && min_y <= y2 < max_y ==> !self.mature_at(x2, y2),
                forall|x2: int, y2: int|
                    min_x <= x2 < x && x2 < max_x && min_y <= y2 < max_y ==> !self.dirt_at(x2, y2),
            decreases max_x - x,
        {
            let mut y = min_y;
            while y < max_y
                invariant
                    self.wf(),
                    max_x <= FARM_SIZE,
                    max_y <= FARM_SIZE,
                    min_x <= x < max_x,
                    has_seeds,
                    min_y <= y,
                    forall|x2: int, y2: int|
                        min_x <= x2 < max_x && min_y <= y2 < max_y ==> !self.mature_at(x2, y2),
                    forall|x2: int, y2: int|
                        min_x <= x2 < x && x2 < max_x && min_y <= y2 < max_y ==> !self.dirt_at(
                            x2,
                            y2,
                        ),
                    forall|y2: int| min_y <= y2 < y && y2 < max_y ==> !self.dirt_at(x as int, y2),
                decreases max_y - y,
            {
                match self.tiles[x * FARM_SIZE + y] {
                    Tile::Dirt => {
                        return Some((x, y));
                    },
                    Tile::Potato { age, blight } => {},
                }
                y += 1;
            }
            x += 1;
        }
        None
    }

    /// What acting on tile `(x, y)` does, relating the farm and inventory
    /// before and after: harvest of a mature potato, planting on dirt when a
    /// seed is held, or a no-op.
    /// Whether the tile at `(x, y)` holds a potato that is not yet mature.
    pub open spec fn growing_at(&self, x: int, y: int) -> bool {
        let t = self.tiles@[x * FARM_SIZE + y];
        t is Potato && t->age != POTATO_MATURE_AGE
    }

    /// The raw-potato kind a harvest of the tile at `(x, y)` yields: the
    /// blighted kind exactly when the tile is blighted.
    pub open spec fn harvest_kind(&self, x: int, y: int) -> Item {
        if self.tiles@[x * FARM_SIZE + y]->blight {
            Item::RawPotatoBlight
        } else {
            Item::RawPotato
        }
    }

    /// The inventory `post` holds exactly `pc` more potatoes of `kind` and
    /// `sc` more seeds than `pre`, and the same of everything else.
    pub open spec fn harvest_delta(
        pre: Seq<(Item, usize)>,
        post: Seq<(Item, usize)>,
        kind: Item,
        pc: nat,
        sc: nat,
    ) -> bool {
        forall|it: Item|
            #[trigger] count_in(post, it) == count_in(pre, it) + (if it == kind {
                pc
            } else {
                0
            }) + (if it == Item::Seeds {
                sc
            } else {
                0
            })
    }

    /// Act on the tile at `(x, y)`: harvest a mature potato (yielding two
    /// or three raw potatoes that carry the tile's blight flag, and one or
    /// two seeds, each count a fair coin draw), or plant a seed on bare
    /// dirt when one is held. Acting on any other tile is a harmless no-op.
    pub fn execute(&mut self, x: usize, y: usize, inventory: &mut Inventory, rng: &mut StdRng)
        requires
            old(self).wf(),
            x < FARM_SIZE,
            y < FARM_SIZE,
            old(inventory).wf(),
            count_in(old(inventory)@, Item::RawPotato) + 3 <= usize::MAX,
            count_in(old(inventory)@, Item::RawPotatoBlight) + 3 <= usize::MAX,
            count_in(old(inventory)@, Item::Seeds) + 2 <= usize::MAX,
        ensures
            final(self).wf(),
            final(inventory).wf(),
            final(self).days_since_last_blight == old(self).days_since_last_blight,
            old(self).mature_at(x as int, y as int) ==> final(self).tiles@ == old(
                self,
            ).tiles@.update(x as int * FARM_SIZE + y as int, Tile::Dirt) && (exists|
                pc: nat,
                sc: nat,
            |
                2 <= pc <= 3 && 1 <= sc <= 2 && #[trigger] Farm::harvest_delta(
                    old(inventory)@,
                    final(inventory)@,
                    old(self).harvest_kind(x as int, y as int),
                    pc,
                    sc,
                )),
            old(self).growing_at(x as int, y as int) ==> final(self).tiles@ == old(self).tiles@
                && final(inventory)@ == old(inventory)@,
            old(self).dirt_at(x as int, y as int) && count_in(old(inventory)@, Item::Seeds) > 0
                ==> final(self).tiles@ == old(self).tiles@.update(
                x as int * FARM_SIZE + y as int,
                (Tile::Potato { age: 0, blight: false }),
            ) && (forall|it: Item|
                #[trigger] count_in(final(inventory)@, it) == count_in(old(inventory)@, it) - (
                if it == Item::Seeds {
                    1nat
                } else {
                    0
                })),
            old(self).dirt_at(x as int, y as int) && count_in(old(inventory)@, Item::Seeds) == 0
                ==> final(self).tiles@ == old(self).tiles@ && final(inventory)@ == old(inventory)@,
    {
        let k = x * FARM_SIZE + y;
        match self.tiles[k] {
            Tile::Potato { age, blight } => if age == POTATO_MATURE_AGE {
                let potato_count: usize = if rng_ratio(rng, 1, 2) {
                    3
                } else {
                    2
                };
                let seed_count: usize = if rng_ratio(rng, 1, 2) {
                    2
                } else {
                    1
                };
                let yield_kind = if blight {
                    Item::RawPotatoBlight
                } else {
                    Item::RawPotato
                };
                inventory.add(yield_kind, potato_count);
                inventory.add(Item::Seeds, seed_count);
                self.tiles[k] = Tile::Dirt;
                proof {
                    assert(self.tiles@ =~= old(self).tiles@.update(k as int, Tile::Dirt));
                    assert(Farm::harvest_delta(
                        old(inventory)@,
                        inventory@,
                        yield_kind,
                        potato_count as nat,
                        seed_count as nat,
                    ));
                }
            },
            Tile::Dirt => {
                if inventory.try_remove(Item::Seeds, 1) {
                    self.tiles[k] = Tile::Potato { age: 0, blight: false };
                    proof {
                        assert(self.tiles@ =~= old(self).tiles@.update(
                            k as int,
                            (Tile::Potato { age: 0, blight: false }),
                        ));
                    }
                }
            },
        }
    }

    /// A mice raid (the day's hazard when no cat guards the farm): every
    /// potato tile is independently destroyed back to dirt on a fair coin
    /// draw; dirt is untouched.
    pub fn mice_raid(&mut self, rng: &mut StdRng)
        requires
            old(self).wf(),
        ensures
            final(self).wf(),
            final(self).days_since_last_blight == old(self).days_since_last_blight,
            forall|k: int|
                0 <= k < FARM_TILES ==> (#[trigger] final(self).tiles@[k] == old(self).tiles@[k]
                    || (old(self).tiles@[k] is Potato && final(self).tiles@[k] == Tile::Dirt)),
    {
        let mut k: usize = 0;
        while k < FARM_TILES
            invariant
                self.tiles@.len() == FARM_TILES,
                old(self).tiles@.len() == FARM_TILES,
                self.days_since_last_blight == old(self).days_since_last_blight,
                k <= FARM_TILES,
                forall|j: int| 0 <= j < FARM_TILES ==> (#[trigger] self.tiles@[j]).ok(),
                forall|j: int|
                    0 <= j < FARM_TILES ==> (#[trigger] self.tiles@[j] == old(self).tiles@[j] || (
                    old(self).tiles@[j] is Potato && self.tiles@[j] == Tile::Dirt)),
            decreases FARM_TILES - k,
        {
            match self.tiles[k] {
                Tile::Potato { age, blight } => if rng_ratio(rng, 1, 2) {
                    self.tiles[k] = Tile::Dirt;
                },
                Tile::Dirt => {},
            }
            k += 1;
        }
    }

    /// One day on the farm. Every potato grows by a day; blighted tiles
    /// infect their diagonal neighbours, cascading along the row-major
    /// sweep; the blight-free-day counter resets to zero on a day that
    /// started with blight present and rises by one otherwise; and once the
    /// counter has passed the grace period, a one-in-ten draw may seed
    /// fresh blight on the first potato of the grid.
    pub fn end_of_day(&mut self, rng: &mut StdRng)
        requires
            old(self).wf(),
            old(self).days_since_last_blight < u32::MAX,
        ensures
            final(self).wf(),
            final(self).days_since_last_blight == if any_blighted(old(self).tiles@) {
                0int
            } else {
                old(self).days_since_last_blight + 1
            },
            final(self).tiles@ == swept(old(self).tiles@) || (final(self).days_since_last_blight
                > BLIGHT_GRACE_DAYS && final(self).tiles@ == seeded(swept(old(self).tiles@))),
    {
        let ghost g0 = self.tiles@;
        let had_blight = self.has_blight();
        proof {
            lemma_sweep_props(g0, 0);
        }
        let mut x: usize = 0;
        while x < FARM_SIZE
            invariant
                g0.len() == FARM_TILES,
                forall|j: int| 0 <= j < FARM_TILES ==> (#[trigger] g0[j]).ok(),
                x <= FARM_SIZE,
                self.tiles@ == sweep_upto(g0, (x * FARM_SIZE) as nat),
                self.days_since_last_blight == old(self).days_since_last_blight,
            decreases FARM_SIZE - x,
        {
            let mut y: usize = 0;
            while y < FARM_SIZE
                invariant
                    g0.len() == FARM_TILES,
                    forall|j: int| 0 <= j < FARM_TILES ==> (#[trigger] g0[j]).ok(),
                    x < FARM_SIZE,
                    y <= FARM_SIZE,
                    self.tiles@ == sweep_upto(g0, (x * FARM_SIZE + y) as nat),
                    self.days_since_last_blight == old(self).days_since_last_blight,
                decreases FARM_SIZE - y,
            {
                let k = x * FARM_SIZE + y;
                proof {
                    lemma_sweep_props(g0, k as nat);
                    lemma_sweep_props(g0, (k + 1) as nat);
                    assert((k as int) / (FARM_SIZE as int) == x as int && (k as int) % (
                    FARM_SIZE as int) == y as int) by (nonlinear_arith)
                        requires
                            k == x * FARM_SIZE + y,
                            x < FARM_SIZE,
                            y < FARM_SIZE,
                            k < FARM_TILES,
                    ;
                }
                let ghost t_pre = self.tiles@;
                match self.tiles[k] {
                    Tile::Dirt => {
                        proof {
                            assert(sweep_upto(g0, (k + 1) as nat) == tick_cell(t_pre, k as int));
                        }
                    },
                    Tile::Potato { age, blight } => {
                        let new_age = if age < POTATO_MATURE_AGE {
                            age + 1
                        } else {
                            age
                        };
                        self.tiles[k] = Tile::Potato { age: new_age, blight };
                        proof {
                            assert(self.tiles@ == t_pre.update(k as int, grown(t_pre[k as int])));
                        }
                        if blight {
                            self.blight_around(x, y);
                        }
                        proof {
                            assert(sweep_upto(g0, (k + 1) as nat) == tick_cell(t_pre, k as int));
                        }
                    },
                }
                y += 1;
            }
            proof {
                assert((x + 1) * FARM_SIZE == x * FARM_SIZE + FARM_SIZE) by (nonlinear_arith);
            }
            x += 1;
        }
        proof {
            assert(self.tiles@ == swept(g0));
            lemma_sweep_props(g0, FARM_TILES as nat);
        }
        if !had_blight {
            self.days_since_last_blight = self.days_since_last_blight + 1;
        } else {
            self.days_since_last_blight = 0;
        }
        if self.days_since_last_blight > BLIGHT_GRACE_DAYS && rng_ratio(rng, 1, 10) {
            self.seed_first_potato();
            proof {
                let g = swept(g0);
                if exists|j: int| is_first_potato(g, j) {
                    let j = choose|j: int| is_first_potato(g, j);
                    assert(seeded(g) == g.update(j, marked(g[j])));
                }
            }
        }
    }
}

impl Default for Farm {
    /// A fresh farm: the preset starting grid, no blight seen yet.
    fn default() -> (f: Farm)
        ensures
            f.wf(),
            f.days_since_last_blight == 0,
            f.tiles@.len() == FARM_TILES,
            forall|k: int| 0 <= k < FARM_TILES ==> #[trigger] f.tiles@[k] == preset_tile(k),
    {
        let mut tiles: Vec<Tile> = Vec::new();
        let mut k: usize = 0;
        while k < FARM_TILES
            invariant
                tiles@.len() == k,
                k <= FARM_TILES,
                forall|j: int| 0 <= j < k ==> #[trigger] tiles@[j] == Tile::Dirt,
            decreases FARM_TILES - k,
        {
            tiles.push(Tile::Dirt);
            k += 1;
        }
        tiles[0] = Tile::Potato { age: 5, blight: false };
        tiles[10] = Tile::Potato { age: 5, blight: false };
        tiles[11] = Tile::Potato { age: 5, blight: false };
        tiles[22] = Tile::Potato { age: 1, blight: false };
        tiles[23] = Tile::Potato { age: 1, blight: false };
        tiles[32] = Tile::Potato { age: 1, blight: false };
        tiles[64] = Tile::Potato { age: 2, blight: false };
        tiles[65] = Tile::Potato { age: 2, blight: false };
        tiles[81] = Tile::Potato { age: 3, blight: false };
        tiles[91] = Tile::Potato { age: 3, blight: false };
        tiles[82] = Tile::Potato { age: 3, blight: false };
        tiles[92] = Tile::Potato { age: 3, blight: false };
        Farm { tiles, days_since_last_blight: 0 }
    }
}

} // verus!
