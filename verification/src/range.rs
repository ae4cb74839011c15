use vstd::prelude::*;

verus! {

/// A bounded-below numeric quantity (health and the like) with a current
/// value and a reference maximum.
///
/// Of the two designs that appear for such quantities — hard-clamped at
/// `max` versus saturating at zero and unbounded above — this type adopts
/// the saturating/unbounded-above variant as canonical: increments grow
/// `value` past `max` freely, decrements never take it below zero.
#[derive(Debug, Clone)]
pub struct Range {
    pub max: u64,
    pub value: u64,
}

impl Range {
    /// A fresh, full quantity: both `max` and `value` at `n`.
    pub fn new(n: u64) -> (r: Range)
        ensures
            r.max == n,
            r.value == n,
    {
        Range { max: n, value: n }
    }

    /// Shifts `value` by the signed amount `delta`: increments are applied in
    /// full (no ceiling), decrements saturate at zero.
    pub fn set(&mut self, delta: i64)
        requires
            delta > 0 ==> old(self).value + delta <= u64::MAX,
        ensures
            final(self).max == old(self).max,
            delta >= 0 ==> final(self).value == old(self).value + delta,
            delta < 0 && -delta >= old(self).value ==> final(self).value == 0,
            delta < 0 && -delta < old(self).value ==> final(self).value == old(self).value + delta,
    {
        if delta >= 0 {
            self.value = self.value + (delta as u64);
        } else {
            let drop_by: u64 = ((-(delta + 1)) as u64) + 1;
            if drop_by >= self.value {
                self.value = 0;
            } else {
                self.value = self.value - drop_by;
            }
        }
    }
}

} // verus!
