use vstd::prelude::*;

verus! {

/// What an enemy leaves behind, to be brewed into potions.
#[derive(Clone, Copy, Debug, PartialEq, Eq, Hash, Structural)]
pub enum Ingredient {
    FrogEyes,
    FrogLungs,
    FrogLegs,
    BatWings,
    BatEyes,
    BatEars,
}

impl Default for Ingredient {
    fn default() -> (ingredient: Self)
        ensures
            ingredient == Ingredient::FrogEyes,
    {
        Ingredient::FrogEyes
    }
}

impl Ingredient {
    /// Where the ingredient's picture sits on the sprite sheet of drops.
    pub open spec fn spec_sheet_index(self) -> int {
        match self {
            Ingredient::FrogEyes => 0,
            Ingredient::FrogLungs => 2,
            Ingredient::FrogLegs => 1,
            Ingredient::BatWings => 4,
            Ingredient::BatEyes => 3,
            Ingredient::BatEars => 5,
        }
    }

    /// Whether a frog drops it.
    pub open spec fn is_frog_part(self) -> bool {
        self == Ingredient::FrogEyes || self == Ingredient::FrogLungs || self
            == Ingredient::FrogLegs
    }

    /// Whether a bat drops it.
    pub open spec fn is_bat_part(self) -> bool {
        self == Ingredient::BatWings || self == Ingredient::BatEyes || self == Ingredient::BatEars
    }

    /// The six ingredients, frog parts first.
    pub open spec fn spec_every() -> Seq<Ingredient> {
        seq![
            Ingredient::FrogEyes,
            Ingredient::FrogLungs,
            Ingredient::FrogLegs,
            Ingredient::BatWings,
            Ingredient::BatEyes,
            Ingredient::BatEars,
        ]
    }

    /// Where the ingredient's picture sits on the sprite sheet of drops.
    pub fn to_sheet_index(&self) -> (index: usize)
        ensures
            index == self.spec_sheet_index(),
            index < 6,
    {
        match self {
            Ingredient::FrogEyes => 0,
            Ingredient::FrogLungs => 2,
            Ingredient::FrogLegs => 1,
            Ingredient::BatWings => 4,
            Ingredient::BatEyes => 3,
            Ingredient::BatEars => 5,
        }
    }

    /// The ingredient whose picture sits at `index` of the sprite sheet.
    pub fn from_sheet_index(index: usize) -> (found: Option<Ingredient>)
        ensures
            index < 6 <==> found is Some,
            found matches Some(ingredient) ==> ingredient.spec_sheet_index() == index,
    {
        match index {
            0 => Some(Ingredient::FrogEyes),
            1 => Some(Ingredient::FrogLegs),
            2 => Some(Ingredient::FrogLungs),
            3 => Some(Ingredient::BatEyes),
            4 => Some(Ingredient::BatWings),
            5 => Some(Ingredient::BatEars),
            _ => None,
        }
    }

    /// The six ingredients, frog parts first: one inventory slot each.
    pub fn every() -> (all: Vec<Ingredient>)
        ensures
            all@ == Ingredient::spec_every(),
    {
        vec![
            Ingredient::FrogEyes,
            Ingredient::FrogLungs,
            Ingredient::FrogLegs,
            Ingredient::BatWings,
            Ingredient::BatEyes,
            Ingredient::BatEars,
        ]
    }

    /// Whether `list` holds this ingredient.
    pub fn is_among(&self, list: &Vec<Ingredient>) -> (found: bool)
        ensures
            found == list@.contains(*self),
    {
        let mut i: usize = 0;
        while i < list.len()
            invariant
                i <= list@.len(),
                forall|j: int| 0 <= j < i ==> list@[j] != *self,
            decreases list@.len() - i,
        {
            if list[i] == *self {
                return true;
            }
            i += 1;
        }
        false
    }
}

/// What a frog may drop.
pub fn frog_drops() -> (drops: Vec<Ingredient>)
    ensures
        drops@ == seq![Ingredient::FrogEyes, Ingredient::FrogLungs, Ingredient::FrogLegs],
        forall|ingredient: Ingredient| drops@.contains(ingredient) <==> ingredient.is_frog_part(),
{
    let drops = vec![Ingredient::FrogEyes, Ingredient::FrogLungs, Ingredient::FrogLegs];
    proof {
        assert(drops@[0] == Ingredient::FrogEyes);
        assert(drops@[1] == Ingredient::FrogLungs);
        assert(drops@[2] == Ingredient::FrogLegs);
    }
    drops
}

/// What a bat may drop.
pub fn bat_drops() -> (drops: Vec<Ingredient>)
    ensures
        drops@ == seq![Ingredient::BatWings, Ingredient::BatEyes, Ingredient::BatEars],
        forall|ingredient: Ingredient| drops@.contains(ingredient) <==> ingredient.is_bat_part(),
{
    let drops = vec![Ingredient::BatWings, Ingredient::BatEyes, Ingredient::BatEars];
    proof {
        assert(drops@[0] == Ingredient::BatWings);
        assert(drops@[1] == Ingredient::BatEyes);
        assert(drops@[2] == Ingredient::BatEars);
    }
    drops
}

/// No two ingredients share a place on the sprite sheet, every ingredient
/// is either a frog's or a bat's, and none is both.
pub proof fn lemma_sheet_index_is_injective(a: Ingredient, b: Ingredient)
    ensures
        a.spec_sheet_index() == b.spec_sheet_index() ==> a == b,
        0 <= a.spec_sheet_index() < 6,
        a.is_frog_part() != a.is_bat_part(),
{
}

} // verus!
