//! The resource economy: item kinds and the inventory multiset.
use vstd::prelude::*;

verus! {

/// The closed set of resource tags. The two raw-potato kinds track
/// contamination provenance; the player-facing display folds them into one
/// bucket (see [`Inventory::items`]).
#[derive(Copy, Clone, Debug, PartialEq, Eq, Structural)]
pub enum Item {
    Seeds,
    RawPotato,
    RawPotatoBlight,
    CookedPotato,
    CanOfBeans,
    Gun,
}

impl Item {
    /// Display name. The blighted raw potato is shown as an ordinary raw
    /// potato on purpose: the inventory screen must not give contamination
    /// away.
    pub fn name(&self) -> (r: &'static str)
        ensures
            r@ == match *self {
                Item::Seeds => "Potato seeds"@,
                Item::RawPotato => "Raw potato"@,
                Item::RawPotatoBlight => "Raw potato"@,
                Item::CookedPotato => "Cooked potato"@,
                Item::CanOfBeans => "Can of beans"@,
                Item::Gun => "Gun"@,
            },
    {
        match self {
            Item::Seeds => "Potato seeds",
            Item::RawPotato => "Raw potato",
            Item::RawPotatoBlight => "Raw potato",
            Item::CookedPotato => "Cooked potato",
            Item::CanOfBeans => "Can of beans",
            Item::Gun => "Gun",
        }
    }

    /// Singular display name, lower case.
    pub fn name_one(&self) -> (r: &'static str)
        ensures
            r@ == match *self {
                Item::Seeds => "potato seed"@,
                Item::RawPotato => "raw potato"@,
                Item::RawPotatoBlight => "raw potato"@,
                Item::CookedPotato => "cooked potato"@,
                Item::CanOfBeans => "can of beans"@,
                Item::Gun => "gun"@,
            },
    {
        match self {
            Item::Seeds => "potato seed",
            Item::RawPotato => "raw potato",
            Item::RawPotatoBlight => "raw potato",
            Item::CookedPotato => "cooked potato",
            Item::CanOfBeans => "can of beans",
            Item::Gun => "gun",
        }
    }

    /// Plural display name, lower case.
    pub fn name_multiple(&self) -> (r: &'static str)
        ensures
            r@ == match *self {
                Item::Seeds => "potato seeds"@,
                Item::RawPotato => "raw potatos"@,
                Item::RawPotatoBlight => "raw potatos"@,
                Item::CookedPotato => "cooked potatos"@,
                Item::CanOfBeans => "cans of beans"@,
                Item::Gun => "guns"@,
            },
    {
        match self {
            Item::Seeds => "potato seeds",
            Item::RawPotato => "raw potatos",
            Item::RawPotatoBlight => "raw potatos",
            Item::CookedPotato => "cooked potatos",
            Item::CanOfBeans => "cans of beans",
            Item::Gun => "guns",
        }
    }
}

/// Total units of `item` stored in the entry list `s` (summed, so it is
/// meaningful even before uniqueness of keys is known).
pub open spec fn count_in(s: Seq<(Item, usize)>, item: Item) -> nat
    decreases s.len(),
{
    if s.len() == 0 {
        0
    } else {
        (if s[0].0 == item {
            s[0].1 as nat
        } else {
            0
        }) + count_in(s.drop_first(), item)
    }
}

/// The entry keys of `s`, in display order.
pub open spec fn keys_of(s: Seq<(Item, usize)>) -> Seq<Item> {
    s.map_values(|p: (Item, usize)| p.0)
}

/// No two entries of `s` carry the same item kind.
pub open spec fn unique_keys(s: Seq<(Item, usize)>) -> bool {
    forall|j: int, k: int| 0 <= j < k < s.len() ==> (#[trigger] s[j]).0 != (#[trigger] s[k]).0
}

/// Every entry of `s` stores a positive count.
pub open spec fn positive_counts(s: Seq<(Item, usize)>) -> bool {
    forall|i: int| 0 <= i < s.len() ==> (#[trigger] s[i]).1 > 0
}

pub proof fn lemma_count_push(s: Seq<(Item, usize)>, p: (Item, usize), item: Item)
    ensures
        count_in(s.push(p), item) == count_in(s, item) + (if p.0 == item {
            p.1 as nat
        } else {
            0
        }),
    decreases s.len(),
{
    if s.len() == 0 {
        assert(s.push(p)[0] == p);
        assert(s.push(p).drop_first() =~= Seq::<(Item, usize)>::empty());
        assert(count_in(s.push(p).drop_first(), item) == 0);
    } else {
        assert(s.push(p)[0] == s[0]);
        assert(s.push(p).drop_first() =~= s.drop_first().push(p));
        lemma_count_push(s.drop_first(), p, item);
        assert(count_in(s.push(p), item) == (if s.push(p)[0].0 == item {
            s.push(p)[0].1 as nat
        } else {
            0
        }) + count_in(s.push(p).drop_first(), item));
    }
}

pub proof fn lemma_count_update(s: Seq<(Item, usize)>, i: int, p: (Item, usize), item: Item)
    requires
        0 <= i < s.len(),
    ensures
        count_in(s.update(i, p), item) == count_in(s, item) - (if s[i].0 == item {
            s[i].1 as nat
        } else {
            0
        }) + (if p.0 == item {
            p.1 as nat
        } else {
            0
        }),
    decreases s.len(),
{
    if i == 0 {
        assert(s.update(0, p).drop_first() =~= s.drop_first());
    } else {
        assert(s.update(i, p).drop_first() =~= s.drop_first().update(i - 1, p));
        lemma_count_update(s.drop_first(), i - 1, p, item);
    }
}

pub proof fn lemma_count_remove(s: Seq<(Item, usize)>, i: int, item: Item)
    requires
        0 <= i < s.len(),
    ensures
        count_in(s.remove(i), item) == count_in(s, item) - (if s[i].0 == item {
            s[i].1 as nat
        } else {
            0
        }),
    decreases s.len(),
{
    if i == 0 {
        assert(s.remove(0) =~= s.drop_first());
    } else {
        assert(s.remove(i).drop_first() =~= s.drop_first().remove(i - 1));
        lemma_count_remove(s.drop_first(), i - 1, item);
    }
}

/// When no entry carries `item`, the count is zero.
pub proof fn lemma_count_absent(s: Seq<(Item, usize)>, item: Item)
    requires
        forall|i: int| 0 <= i < s.len() ==> s[i].0 != item,
    ensures
        count_in(s, item) == 0,
    decreases s.len(),
{
    if s.len() > 0 {
        lemma_count_absent(s.drop_first(), item);
    }
}

/// When keys are unique, the count of `item` is exactly the entry at `i`.
pub proof fn lemma_count_at(s: Seq<(Item, usize)>, i: int, item: Item)
    requires
        0 <= i < s.len(),
        s[i].0 == item,
        unique_keys(s),
    ensures
        count_in(s, item) == s[i].1 as nat,
    decreases s.len(),
{
    if i == 0 {
        assert(forall|j: int| 0 <= j < s.drop_first().len() ==> s.drop_first()[j] == s[j + 1]);
        lemma_count_absent(s.drop_first(), item);
    } else {
        assert(forall|j: int| 0 <= j < s.drop_first().len() ==> s.drop_first()[j] == s[j + 1]);
        lemma_count_at(s.drop_first(), i - 1, item);
    }
}

/// How one stored entry is shown: raw potatoes of either kind appear as
/// one ordinary raw-potato bucket holding `total`, with the blighted entry
/// standing in only when no clean entry exists (`clean == 0`); everything
/// else is shown as stored.
pub open spec fn display_entry(p: (Item, usize), clean: nat, total: usize) -> Seq<(Item, usize)> {
    if p.0 == Item::RawPotato {
        seq![(Item::RawPotato, total)]
    } else if p.0 == Item::RawPotatoBlight {
        if clean > 0 {
            Seq::<(Item, usize)>::empty()
        } else {
            seq![(Item::RawPotato, total)]
        }
    } else {
        seq![p]
    }
}

/// The display list of the whole entry list, in order.
pub open spec fn display_of(s: Seq<(Item, usize)>, clean: nat, total: usize) -> Seq<(Item, usize)>
    decreases s.len(),
{
    if s.len() == 0 {
        Seq::<(Item, usize)>::empty()
    } else {
        display_entry(s[0], clean, total) + display_of(s.drop_first(), clean, total)
    }
}

proof fn lemma_display_snoc(s: Seq<(Item, usize)>, i: int, clean: nat, total: usize)
    requires
        0 <= i < s.len(),
    ensures
        display_of(s.take(i + 1), clean, total) == display_of(s.take(i), clean, total)
            + display_entry(s[i], clean, total),
    decreases i,
{
    if i == 0 {
        assert(s.take(1).drop_first() =~= Seq::<(Item, usize)>::empty());
        assert(s.take(0) =~= Seq::<(Item, usize)>::empty());
        assert(display_of(s.take(1), clean, total) =~= display_entry(s[0], clean, total));
    } else {
        assert(s.take(i + 1).drop_first() =~= s.drop_first().take(i));
        assert(s.take(i).drop_first() =~= s.drop_first().take(i - 1));
        lemma_display_snoc(s.drop_first(), i - 1, clean, total);
        assert(s.take(i + 1)[0] == s[0] && s.take(i)[0] == s[0]);
        assert(display_of(s.take(i + 1), clean, total) =~= display_of(s.take(i), clean, total)
            + display_entry(s[i], clean, total));
    }
}

/// Mapping from item kind to a positive count; insertion order is kept for
/// display. Invariant: counts are positive and keys unique, so an entry is
/// never observably present with count zero.
pub struct Inventory {
    items: Vec<(Item, usize)>,
}

impl View for Inventory {
    type V = Seq<(Item, usize)>;

    closed spec fn view(&self) -> Seq<(Item, usize)> {
        self.items@
    }
}

impl Default for Inventory {
    /// A fresh inventory holds five cans of beans.
    fn default() -> (inv: Inventory)
        ensures
            inv@ =~= seq![(Item::CanOfBeans, 5usize)],
            inv.wf(),
    {
        Inventory::new()
    }
}

impl Inventory {
    /// The inventory invariant: no zero entries, no duplicate keys.
    pub open spec fn wf(&self) -> bool {
        &&& positive_counts(self@)
        &&& unique_keys(self@)
    }

    /// Units of `item` currently stored.
    pub open spec fn spec_count(&self, item: Item) -> nat {
        count_in(self@, item)
    }

    /// A fresh inventory holds five cans of beans and nothing else.
    pub fn new() -> (inv: Inventory)
        ensures
            inv@ =~= seq![(Item::CanOfBeans, 5usize)],
            inv.wf(),
    {
        let mut items: Vec<(Item, usize)> = Vec::new();
        items.push((Item::CanOfBeans, 5));
        Inventory { items }
    }

    /// Store `count` more units of `item`, creating the entry if absent
    /// (and creating no zero entry when `count` is zero).
    pub fn add(&mut self, item: Item, count: usize)
        requires
            old(self).wf(),
            count_in(old(self)@, item) + count <= usize::MAX,
        ensures
            final(self).wf(),
            forall|it: Item|
                #[trigger] count_in(final(self)@, it) == count_in(old(self)@, it) + (if it == item {
                    count as nat
                } else {
                    0
                }),
            keys_of(final(self)@) == keys_of(old(self)@) || keys_of(final(self)@) == keys_of(
                old(self)@,
            ).push(item),
    {
        if count == 0 {
            return ;
        }
        let ghost s0 = self.items@;
        let mut i: usize = 0;
        while i < self.items.len()
            invariant
                self.items@ == s0,
                self@ == s0,
                old(self)@ == s0,
                positive_counts(s0),
                unique_keys(s0),
                count_in(s0, item) + count <= usize::MAX,
                count > 0,
                0 <= i <= s0.len(),
                forall|k: int| 0 <= k < i ==> (#[trigger] s0[k]).0 != item,
            decreases s0.len() - i,
        {
            if self.items[i].0 == item {
                proof {
                    lemma_count_at(s0, i as int, item);
                }
                let n = self.items[i].1;
                self.items[i] = (item, n + count);
                proof {
                    assert forall|it: Item| #[trigger]
                        count_in(self.items@, it) == count_in(s0, it) + (if it == item {
                            count as nat
                        } else {
                            0
                        }) by {
                        lemma_count_update(s0, i as int, (item, (n + count) as usize), it);
                    }
                    assert(keys_of(self.items@) =~= keys_of(s0));
                }
                return ;
            }
            i += 1;
        }
        proof {
            lemma_count_absent(s0, item);
        }
        self.items.push((item, count));
        proof {
            assert forall|it: Item| #[trigger]
                count_in(self.items@, it) == count_in(s0, it) + (if it == item {
                    count as nat
                } else {
                    0
                }) by {
                lemma_count_push(s0, (item, count), it);
            }
            assert(keys_of(self.items@) =~= keys_of(s0).push(item));
        }
    }

    /// Best-effort removal: take up to `count` units of `item`, clamping at
    /// zero without reporting failure (used for forced losses).
    pub fn remove(&mut self, item: Item, count: usize)
        requires
            old(self).wf(),
        ensures
            final(self).wf(),
            forall|it: Item|
                #[trigger] count_in(final(self)@, it) == count_in(old(self)@, it) - (if it == item {
                    if count <= count_in(old(self)@, item) {
                        count as nat
                    } else {
                        count_in(old(self)@, item)
                    }
                } else {
                    0
                }),
    {
        let ghost s0 = self.items@;
        let mut i: usize = 0;
        while i < self.items.len()
            invariant
                self.items@ == s0,
                self@ == s0,
                old(self)@ == s0,
                positive_counts(s0),
                unique_keys(s0),
                0 <= i <= s0.len(),
                forall|k: int| 0 <= k < i ==> (#[trigger] s0[k]).0 != item,
            decreases s0.len() - i,
        {
            if self.items[i].0 == item {
                proof {
                    lemma_count_at(s0, i as int, item);
                }
                let n = self.items[i].1;
                if n <= count {
                    self.items.remove(i);
                    proof {
                        assert forall|it: Item| #[trigger]
                            count_in(self.items@, it) == count_in(s0, it) - (if it == item {
                                count_in(s0, item)
                            } else {
                                0
                            }) by {
                            lemma_count_remove(s0, i as int, it);
                        }
                        assert forall|j: int, k: int|
                            0 <= j < k < self.items@.len() implies (#[trigger] self.items@[j]).0 != (
                        #[trigger] self.items@[k]).0 by {
                            if k < i {
                                assert(s0[j] == self.items@[j] && s0[k] == self.items@[k]);
                            } else if j < i {
                                assert(s0[j] == self.items@[j] && s0[k + 1] == self.items@[k]);
                            } else {
                                assert(s0[j + 1] == self.items@[j] && s0[k + 1] == self.items@[k]);
                            }
                        }
                    }
                } else {
                    self.items[i] = (item, n - count);
                    proof {
                        assert forall|it: Item| #[trigger]
                            count_in(self.items@, it) == count_in(s0, it) - (if it == item {
                                count as nat
                            } else {
                                0
                            }) by {
                            lemma_count_update(s0, i as int, (item, (n - count) as usize), it);
                        }
                    }
                }
                return ;
            }
            i += 1;
        }
        proof {
            lemma_count_absent(s0, item);
        }
    }

    /// Atomic removal: fails without mutation when fewer than `count` units
    /// of `item` are stored (or when no entry exists at all); otherwise takes
    /// exactly `count` units.
    pub fn try_remove(&mut self, item: Item, count: usize) -> (ok: bool)
        requires
            old(self).wf(),
        ensures
            final(self).wf(),
            ok == (count_in(old(self)@, item) > 0 && count_in(old(self)@, item) >= count),
            ok ==> forall|it: Item|
                #[trigger] count_in(final(self)@, it) == count_in(old(self)@, it) - (if it == item {
                    count as nat
                } else {
                    0
                }),
            !ok ==> final(self)@ == old(self)@,
    {
        let ghost s0 = self.items@;
        let mut i: usize = 0;
        while i < self.items.len()
            invariant
                self.items@ == s0,
                self@ == s0,
                old(self)@ == s0,
                positive_counts(s0),
                unique_keys(s0),
                0 <= i <= s0.len(),
                forall|k: int| 0 <= k < i ==> (#[trigger] s0[k]).0 != item,
            decreases s0.len() - i,
        {
            if self.items[i].0 == item {
                proof {
                    lemma_count_at(s0, i as int, item);
                }
                let n = self.items[i].1;
                if n < count {
                    return false;
                } else if n == count {
                    self.items.remove(i);
                    proof {
                        assert forall|it: Item| #[trigger]
                            count_in(self.items@, it) == count_in(s0, it) - (if it == item {
                                count as nat
                            } else {
                                0
                            }) by {
                            lemma_count_remove(s0, i as int, it);
                        }
                        assert forall|j: int, k: int|
                            0 <= j < k < self.items@.len() implies (#[trigger] self.items@[j]).0 != (
                        #[trigger] self.items@[k]).0 by {
                            if k < i {
                                assert(s0[j] == self.items@[j] && s0[k] == self.items@[k]);
                            } else if j < i {
                                assert(s0[j] == self.items@[j] && s0[k + 1] == self.items@[k]);
                            } else {
                                assert(s0[j + 1] == self.items@[j] && s0[k + 1] == self.items@[k]);
                            }
                        }
                    }
                    return true;
                } else {
                    self.items[i] = (item, n - count);
                    proof {
                        assert forall|it: Item| #[trigger]
                            count_in(self.items@, it) == count_in(s0, it) - (if it == item {
                                count as nat
                            } else {
                                0
                            }) by {
                            lemma_count_update(s0, i as int, (item, (n - count) as usize), it);
                        }
                    }
                    return true;
                }
            }
            i += 1;
        }
        proof {
            lemma_count_absent(s0, item);
        }
        false
    }

    /// Cook every raw potato of either kind: both raw stacks end at zero and
    /// their prior sum is added to the cooked-potato count. The blight
    /// distinction is discarded here.
    pub fn cook_all(&mut self)
        requires
            old(self).wf(),
            count_in(old(self)@, Item::RawPotato) + count_in(old(self)@, Item::RawPotatoBlight)
                + count_in(old(self)@, Item::CookedPotato) <= usize::MAX,
        ensures
            final(self).wf(),
            count_in(final(self)@, Item::RawPotato) == 0,
            count_in(final(self)@, Item::RawPotatoBlight) == 0,
            count_in(final(self)@, Item::CookedPotato) == count_in(old(self)@, Item::CookedPotato)
                + count_in(old(self)@, Item::RawPotato) + count_in(
                old(self)@,
                Item::RawPotatoBlight,
            ),
            forall|it: Item|
                it != Item::RawPotato && it != Item::RawPotatoBlight && it != Item::CookedPotato
                    ==> #[trigger] count_in(final(self)@, it) == count_in(old(self)@, it),
    {
        let raw = self.count(Item::RawPotato);
        let raw_blight = self.count(Item::RawPotatoBlight);
        self.remove(Item::RawPotato, raw);
        self.remove(Item::RawPotatoBlight, raw_blight);
        self.add(Item::CookedPotato, raw + raw_blight);
    }

    /// Whether a ready-to-eat potato is stored (the display hint for the
    /// food gauge looks only at cooked potatoes).
    pub fn has_edibles(&self) -> (r: bool)
        requires
            self.wf(),
        ensures
            r == (self.spec_count(Item::CookedPotato) > 0),
    {
        self.count(Item::CookedPotato) > 0
    }

    /// Whether anything can be cooked: a raw potato of either kind.
    pub fn has_cookables(&self) -> (r: bool)
        requires
            self.wf(),
        ensures
            r == (self.spec_count(Item::RawPotato) > 0 || self.spec_count(Item::RawPotatoBlight)
                > 0),
    {
        self.count(Item::RawPotato) > 0 || self.count(Item::RawPotatoBlight) > 0
    }

    /// Consume one unit from the fixed priority list of edible kinds, cooked
    /// potato before canned food. Reports whether a unit was available.
    pub fn remove_edible(&mut self) -> (ok: bool)
        requires
            old(self).wf(),
        ensures
            final(self).wf(),
            ok == (count_in(old(self)@, Item::CookedPotato) > 0 || count_in(
                old(self)@,
                Item::CanOfBeans,
            ) > 0),
            count_in(old(self)@, Item::CookedPotato) > 0 ==> forall|it: Item|
                #[trigger] count_in(final(self)@, it) == count_in(old(self)@, it) - (if it
                    == Item::CookedPotato {
                    1nat
                } else {
                    0
                }),
            count_in(old(self)@, Item::CookedPotato) == 0 && count_in(old(self)@, Item::CanOfBeans)
                > 0 ==> forall|it: Item|
                #[trigger] count_in(final(self)@, it) == count_in(old(self)@, it) - (if it
                    == Item::CanOfBeans {
                    1nat
                } else {
                    0
                }),
            !ok ==> final(self)@ == old(self)@,
    {
        if self.try_remove(Item::CookedPotato, 1) {
            true
        } else if self.try_remove(Item::CanOfBeans, 1) {
            true
        } else {
            false
        }
    }

    /// The display list: entries in insertion order, with the two
    /// raw-potato kinds folded into one bucket. A blighted entry is
    /// dropped in favour of the clean entry's position when clean stock
    /// exists, and is shown as ordinary raw potato itself only when the
    /// clean stock is exhausted — the inventory screen must not give
    /// contamination away.
    pub fn items(&self) -> (r: Vec<(Item, usize)>)
        requires
            self.wf(),
            count_in(self@, Item::RawPotato) + count_in(self@, Item::RawPotatoBlight)
                <= usize::MAX,
        ensures
            r@ =~= display_of(
                self@,
                count_in(self@, Item::RawPotato),
                (count_in(self@, Item::RawPotato) + count_in(
                    self@,
                    Item::RawPotatoBlight,
                )) as usize,
            ),
    {
        let clean = self.count(Item::RawPotato);
        let blighted = self.count(Item::RawPotatoBlight);
        let total = clean + blighted;
        let ghost s0 = self.items@;
        let mut r: Vec<(Item, usize)> = Vec::new();
        let mut i: usize = 0;
        while i < self.items.len()
            invariant
                self.items@ == s0,
                self@ == s0,
                i <= s0.len(),
                clean == count_in(s0, Item::RawPotato),
                r@ =~= display_of(s0.take(i as int), clean as nat, total),
            decreases s0.len() - i,
        {
            let (item, count) = self.items[i];
            match item {
                Item::RawPotato => {
                    r.push((Item::RawPotato, total));
                },
                Item::RawPotatoBlight => {
                    if clean == 0 {
                        r.push((Item::RawPotato, total));
                    }
                },
                _ => {
                    r.push((item, count));
                },
            }
            proof {
                lemma_display_snoc(s0, i as int, clean as nat, total);
            }
            i += 1;
        }
        proof {
            assert(s0.take(s0.len() as int) =~= s0);
        }
        r
    }

    /// Whether anything at all is stored.
    pub fn has_items(&self) -> (r: bool)
        ensures
            r == (self@.len() > 0),
    {
        self.items.len() > 0
    }

    /// Units of `item` currently stored.
    pub fn count(&self, item: Item) -> (r: usize)
        requires
            self.wf(),
        ensures
            r == self.spec_count(item),
    {
        let ghost s0 = self.items@;
        let mut i: usize = 0;
        while i < self.items.len()
            invariant
                self.items@ == s0,
                self@ == s0,
                unique_keys(s0),
                0 <= i <= s0.len(),
                forall|k: int| 0 <= k < i ==> (#[trigger] s0[k]).0 != item,
            decreases s0.len() - i,
        {
            if self.items[i].0 == item {
                proof {
                    lemma_count_at(s0, i as int, item);
                }
                return self.items[i].1;
            }
            i += 1;
        }
        proof {
            lemma_count_absent(s0, item);
        }
        0
    }
}

} // verus!
