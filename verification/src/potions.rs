use vstd::prelude::*;
use crate::ingredients::{bat_drops, frog_drops, Ingredient};

verus! {

/// A potion and its strength.
#[derive(Clone, Copy, Debug, PartialEq, Eq, Structural)]
pub enum Potion {
    Speed(u16),
    Damage(u16),
    Health(u16),
    Other(u16),
}

impl Potion {
    /// What two ingredients brew into: a part of a bat and a part of a
    /// frog, in either order, make a health potion; anything else makes a
    /// speed potion.
    pub open spec fn brewed(first: Ingredient, second: Ingredient) -> Potion {
        if (first.is_bat_part() && second.is_frog_part()) || (first.is_frog_part()
            && second.is_bat_part()) {
            Potion::Health(1)
        } else {
            Potion::Speed(1)
        }
    }

    /// The strength of the potion.
    pub open spec fn spec_strength(self) -> u16 {
        match self {
            Potion::Speed(strength) => strength,
            Potion::Damage(strength) => strength,
            Potion::Health(strength) => strength,
            Potion::Other(strength) => strength,
        }
    }

    /// Brews a potion from two ingredients.
    pub fn new(ingredients: (Ingredient, Ingredient)) -> (potion: Potion)
        ensures
            potion == Potion::brewed(ingredients.0, ingredients.1),
    {
        let bat_drops = bat_drops();
        let frog_drops = frog_drops();
        if ingredients.0.is_among(&bat_drops) && ingredients.1.is_among(&frog_drops) {
            Potion::Health(1)
        } else if ingredients.0.is_among(&frog_drops) && ingredients.1.is_among(&bat_drops) {
            Potion::Health(1)
        } else {
            Potion::Speed(1)
        }
    }

    /// The strength of the potion.
    pub fn strength(&self) -> (strength: u16)
        ensures
            strength == self.spec_strength(),
    {
        match self {
            Potion::Speed(strength) => *strength,
            Potion::Damage(strength) => *strength,
            Potion::Health(strength) => *strength,
            Potion::Other(strength) => *strength,
        }
    }

    /// How many points of health drinking the potion restores: its strength
    /// for a health potion, nothing for any other.
    pub fn healing(&self) -> (points: u16)
        ensures
            points == (if self is Health {
                self.spec_strength()
            } else {
                0
            }),
    {
        match self {
            Potion::Health(strength) => *strength,
            _ => 0,
        }
    }

    /// By how many tenths drinking the potion raises the drinker's speed:
    /// its strength for a speed potion, nothing for any other.
    pub fn speed_gain_tenths(&self) -> (tenths: u16)
        ensures
            tenths == (if self is Speed {
                self.spec_strength()
            } else {
                0
            }),
    {
        match self {
            Potion::Speed(strength) => *strength,
            _ => 0,
        }
    }
}

/// The order of the two ingredients does not matter.
pub proof fn lemma_brewing_is_symmetric(first: Ingredient, second: Ingredient)
    ensures
        Potion::brewed(first, second) == Potion::brewed(second, first),
{
}

} // verus!
