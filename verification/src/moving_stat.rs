//! Tracks an outside counter which cannot be reset and is always increasing.

use vstd::prelude::*;

verus! {

/// A number to which the growth of an outside counter is added.
pub struct MovingStat {
    value: u64,
}

impl View for MovingStat {
    type V = u64;

    closed spec fn view(&self) -> u64 {
        self.value
    }
}

/// What a reading adds to the growth: nothing if the counter went back.
pub open spec fn growth(last: u64, reading: u64) -> u64 {
    if reading >= last {
        (reading - last) as u64
    } else {
        0
    }
}

/// The growth that a stat holds after the readings of an outside counter whose reading
/// before was `last`.
pub open spec fn absorbed(stat: u64, last: u64, readings: Seq<u64>) -> u64
    decreases readings.len(),
{
    if readings.len() == 0 {
        stat
    } else {
        let before = readings.drop_last();
        absorbed(stat, last, before).wrapping_add(
            growth(
                if before.len() == 0 {
                    last
                } else {
                    before.last()
                },
                readings.last(),
            ),
        )
    }
}

impl Default for MovingStat {
    fn default() -> (stat: Self)
        ensures
            stat@ == 0,
    {
        MovingStat { value: 0 }
    }
}

impl MovingStat {
    /// Adds the growth of the outside counter since the reading that `old_value` holds,
    /// and makes `new_value` the reading that it holds.
    pub fn update_stat(&mut self, old_value: &mut MovingStat, new_value: u64)
        ensures
            final(old_value)@ == new_value,
            final(self)@ == old(self)@.wrapping_add(growth(old(old_value)@, new_value)),
    {
        let old_reading: u64 = old_value.value;
        old_value.value = new_value;
        self.value = self.value.wrapping_add(new_value.saturating_sub(old_reading));
    }

    /// Returns the number and starts again from zero.
    pub fn load_and_reset(&mut self) -> (value: u64)
        ensures
            value == old(self)@,
            final(self)@ == 0,
    {
        let value: u64 = self.value;
        self.value = 0;
        value
    }
}

/// However often an increasing counter is read, the stat grows by as much as the counter
/// did, as long as that can be counted.
pub proof fn law_growth_of_an_increasing_counter(stat: u64, last: u64, readings: Seq<u64>)
    requires
        readings.len() > 0,
        last <= readings[0],
        forall|i: int, j: int| 0 <= i <= j < readings.len() ==> readings[i] <= readings[j],
        stat + (readings.last() - last) <= u64::MAX,
    ensures
        absorbed(stat, last, readings) == stat + (readings.last() - last),
    decreases readings.len(),
{
    let before = readings.drop_last();
    if before.len() == 0 {
        assert(absorbed(stat, last, before) == stat);
    } else {
        assert(before.last() == readings[readings.len() - 2]);
        assert(before[0] == readings[0]);
        law_growth_of_an_increasing_counter(stat, last, before);
    }
}

/// What was taken out by a reset is not counted again: the growth before and after a
/// reset add up to the growth of the whole.
pub proof fn law_reset_loses_nothing(last: u64, middle: u64, reading: u64)
    requires
        last <= middle <= reading,
    ensures
        growth(last, middle) + growth(middle, reading) == growth(last, reading),
{
}

/// The growth between two readings is by how much the second exceeds the first, and nothing
/// if it does not.
pub proof fn law_growth_is_the_excess(last: u64, reading: u64)
    ensures
        last <= reading ==> last + growth(last, reading) == reading,
        reading <= last ==> growth(last, reading) == 0,
{
}

} // verus!
