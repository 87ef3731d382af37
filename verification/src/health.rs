use vstd::prelude::*;

verus! {

/// One heart of the health bar: the heart that stands for the player's
/// point of health of this number.
#[derive(Clone, Copy, Debug, PartialEq, Eq, Structural)]
pub struct HealthUI(pub usize);

impl HealthUI {
    /// Whether the heart is drawn empty: it is when the player's health,
    /// rounded down to whole points, is below the heart's number.
    pub fn shows_empty(&self, whole_health: i64) -> (empty: bool)
        ensures
            empty == (whole_health < self.0),
    {
        whole_health < 0 || (whole_health as u64) < self.0 as u64
    }
}

/// Whether a blow lands on a creature: the weapon must be live, and the
/// creature must not still be flashing from the last blow.
pub fn takes_hit(weapon_active: bool, flashing: bool) -> (hit: bool)
    ensures
        hit == (weapon_active && !flashing),
{
    weapon_active && !flashing
}

/// Of the hearts of a health bar numbered `1` to `hearts`, those that are
/// drawn full are exactly the first `whole_health`.
pub proof fn lemma_hearts_fill_from_the_left(whole_health: i64, heart: usize)
    ensures
        (whole_health < heart) <==> !(heart <= whole_health),
        whole_health < 0 ==> whole_health < heart,
{
}

} // verus!
