//! Bounded non-negative counters (health, food).
use vstd::prelude::*;

verus! {

/// A bounded counter: `0 <= current <= max`. Additions saturate at `max`,
/// subtractions saturate at `0` and report whether the counter ran out.
pub struct Stat {
    pub current: u32,
    pub max: u32,
}

impl Stat {
    /// The counter's invariant.
    pub open spec fn wf(&self) -> bool {
        self.current <= self.max
    }

    /// A fresh counter, full at `n`.
    pub fn new(n: u32) -> (s: Stat)
        ensures
            s.current == n,
            s.max == n,
            s.wf(),
    {
        Stat { current: n, max: n }
    }

    /// Add `count`, saturating at `max`.
    pub fn add(&mut self, count: u32)
        requires
            old(self).current + count <= u32::MAX,
        ensures
            final(self).max == old(self).max,
            final(self).current == if old(self).current + count <= old(self).max {
                old(self).current + count
            } else {
                old(self).max as int
            },
            old(self).wf() ==> final(self).wf(),
    {
        self.current = self.max.min(self.current + count);
    }

    /// Subtract `count`, saturating at `0`. Returns `false` exactly when the
    /// counter ran out, that is when `count` was at least `current`.
    pub fn subn(&mut self, count: u32) -> (kept: bool)
        ensures
            final(self).max == old(self).max,
            kept == (old(self).current > count),
            final(self).current == if old(self).current > count {
                old(self).current - count
            } else {
                0int
            },
            old(self).wf() ==> final(self).wf(),
    {
        if self.current > count {
            self.current -= count;
            true
        } else {
            self.current = 0;
            false
        }
    }

    /// How much of `count` would actually be gained by `add`, or `None` when
    /// already full.
    pub fn can_add(&self, count: u32) -> (r: Option<u32>)
        requires
            self.wf(),
        ensures
            r is None <==> self.current == self.max,
            self.current < self.max ==> r == Some(
                if self.max - self.current <= count {
                    (self.max - self.current) as u32
                } else {
                    count
                },
            ),
    {
        if self.current == self.max {
            None
        } else {
            Some((self.max - self.current).min(count))
        }
    }

    /// Whether the counter is full.
    pub fn is_max(&self) -> (r: bool)
        ensures
            r == (self.current == self.max),
    {
        self.current == self.max
    }
}

} // verus!
