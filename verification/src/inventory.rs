use std::collections::HashMap;
use vstd::prelude::*;
use crate::ingredients::Ingredient;
use crate::potions::Potion;

verus! {

/// What the player carries: how many of each ingredient, kept under the
/// ingredient's place on the sprite sheet.
pub struct Inventory {
    pub items: HashMap<usize, usize>,
}

/// Whether a slot of the inventory is picked for the next potion.
#[derive(Clone, Copy, Debug, PartialEq, Eq, Structural)]
pub struct SelectedPotion(pub bool);

/// One slot of the inventory on screen.
#[derive(Clone, Copy, Debug, PartialEq, Eq, Structural)]
pub struct Slot {
    pub ingredient: Ingredient,
    pub selected: SelectedPotion,
    /// Whether the slot was clicked in this frame.
    pub clicked: bool,
}

/// How many of `ingredient` a stock holds.
pub open spec fn stock_of(items: Map<usize, usize>, ingredient: Ingredient) -> nat {
    if items.contains_key(ingredient.spec_sheet_index() as usize) {
        items[ingredient.spec_sheet_index() as usize] as nat
    } else {
        0
    }
}

/// Whether a stock can pay for a potion of `first` and `second`.
pub open spec fn affordable(
    items: Map<usize, usize>,
    first: Ingredient,
    second: Ingredient,
) -> bool {
    if first == second {
        stock_of(items, first) >= 2
    } else {
        stock_of(items, first) >= 1 && stock_of(items, second) >= 1
    }
}

/// A stock after one more of `ingredient` has been put into it. A count
/// that has reached the largest number stays there.
pub open spec fn gained(items: Map<usize, usize>, ingredient: Ingredient) -> Map<usize, usize> {
    items.insert(
        ingredient.spec_sheet_index() as usize,
        if stock_of(items, ingredient) < usize::MAX {
            (stock_of(items, ingredient) + 1) as usize
        } else {
            usize::MAX
        },
    )
}

/// A stock after one of `ingredient` has been taken out of it.
pub open spec fn spent(items: Map<usize, usize>, ingredient: Ingredient) -> Map<usize, usize> {
    items.insert(
        ingredient.spec_sheet_index() as usize,
        (stock_of(items, ingredient) - 1) as usize,
    )
}

/// What brewing `first` with every selected slot from `from` on leaves of
/// a stock, and the potions it makes, in order. Each potion costs one of
/// `first` and one of the slot's ingredient; a slot that the stock cannot
/// pay for is passed over.
pub open spec fn brewing(
    items: Map<usize, usize>,
    slots: Seq<Slot>,
    first: Ingredient,
    from: int,
) -> (Map<usize, usize>, Seq<Potion>)
    decreases slots.len() - from,
{
    if from < 0 || from >= slots.len() {
        (items, Seq::empty())
    } else if slots[from].selected.0 && affordable(items, first, slots[from].ingredient) {
        let rest = brewing(
            spent(spent(items, first), slots[from].ingredient),
            slots,
            first,
            from + 1,
        );
        (rest.0, seq![Potion::brewed(first, slots[from].ingredient)] + rest.1)
    } else {
        brewing(items, slots, first, from + 1)
    }
}

/// What a frame of brewing leaves of a stock, and the potions it makes: the
/// first selected slot is brewed with every selected slot after it.
pub open spec fn brewed_in_frame(items: Map<usize, usize>, slots: Seq<Slot>) -> (
    Map<usize, usize>,
    Seq<Potion>,
) {
    let first = next_selected(slots, 0);
    if first < slots.len() {
        brewing(items, slots, slots[first].ingredient, first + 1)
    } else {
        (items, Seq::empty())
    }
}

/// Whether at least two slots are selected.
pub open spec fn has_pair(slots: Seq<Slot>) -> bool {
    next_selected(slots, next_selected(slots, 0) + 1) < slots.len()
}

/// The first selected slot at or after `from`, or the number of slots.
pub open spec fn next_selected(slots: Seq<Slot>, from: int) -> int
    decreases slots.len() - from,
{
    if from < 0 || from >= slots.len() {
        slots.len() as int
    } else if slots[from].selected.0 {
        from
    } else {
        next_selected(slots, from + 1)
    }
}

/// The slots after a frame that leaves the stock `items`, where `paired`
/// says whether two slots were selected: a pair clears every selection, and
/// a click selects a slot that is in stock.
pub open spec fn slots_after(
    slots: Seq<Slot>,
    paired: bool,
    items: Map<usize, usize>,
) -> Seq<Slot> {
    Seq::new(
        slots.len(),
        |i: int|
            Slot {
                ingredient: slots[i].ingredient,
                selected: SelectedPotion(
                    (slots[i].clicked && stock_of(items, slots[i].ingredient) != 0) || (!paired
                        && slots[i].selected.0),
                ),
                clicked: slots[i].clicked,
            },
    )
}

impl Default for Inventory {
    fn default() -> (inventory: Self)
        ensures
            inventory.items@ == Map::<usize, usize>::empty(),
    {
        Inventory::new()
    }
}

impl Inventory {
    /// How many of `ingredient` the inventory holds.
    pub open spec fn spec_count(&self, ingredient: Ingredient) -> nat {
        stock_of(self.items@, ingredient)
    }

    /// An empty inventory.
    pub fn new() -> (inventory: Self)
        ensures
            inventory.items@ == Map::<usize, usize>::empty(),
            forall|ingredient: Ingredient| inventory.spec_count(ingredient) == 0,
    {
        Inventory { items: HashMap::new() }
    }

    /// How many of `ingredient` the inventory holds.
    pub fn count(&self, ingredient: Ingredient) -> (n: usize)
        ensures
            n == self.spec_count(ingredient),
    {
        match self.items.get(&ingredient.to_sheet_index()) {
            Some(n) => *n,
            None => 0,
        }
    }

    /// Puts one more of `ingredient` into the inventory. A count that has
    /// reached the largest number stays there.
    pub fn pick_up(&mut self, ingredient: Ingredient)
        ensures
            final(self).items@ == gained(old(self).items@, ingredient),
    {
        let held = self.count(ingredient);
        let count = if held < usize::MAX {
            held + 1
        } else {
            held
        };
        self.items.insert(ingredient.to_sheet_index(), count);
    }

    /// Takes one of `ingredient` out of the inventory.
    fn take(&mut self, ingredient: Ingredient)
        requires
            old(self).spec_count(ingredient) >= 1,
        ensures
            final(self).items@ == spent(old(self).items@, ingredient),
    {
        let held = self.count(ingredient);
        self.items.insert(ingredient.to_sheet_index(), held - 1);
    }

    /// Brews a potion from one `first` and one `second` out of the
    /// inventory. Where the inventory cannot pay for it, nothing is brewed
    /// and nothing taken.
    pub fn brew(&mut self, first: Ingredient, second: Ingredient) -> (potion: Option<Potion>)
        ensures
            potion is Some <==> affordable(old(self).items@, first, second),
            potion matches Some(p) ==> {
                &&& p == Potion::brewed(first, second)
                &&& final(self).items@ == spent(spent(old(self).items@, first), second)
            },
            potion is None ==> final(self).items@ == old(self).items@,
    {
        let enough = if first == second {
            self.count(first) >= 2
        } else {
            self.count(first) >= 1 && self.count(second) >= 1
        };
        if !enough {
            return None;
        }
        self.take(first);
        self.take(second);
        Some(Potion::new((first, second)))
    }
}

/// Taking an ingredient out of a stock lowers its count by one, putting
/// one in raises it by one, and neither touches the other counts.
pub proof fn lemma_counts(items: Map<usize, usize>, ingredient: Ingredient, other: Ingredient)
    ensures
        stock_of(items, ingredient) >= 1 ==> stock_of(spent(items, ingredient), ingredient)
            == stock_of(items, ingredient) - 1,
        stock_of(items, ingredient) < usize::MAX ==> stock_of(gained(items, ingredient), ingredient)
            == stock_of(items, ingredient) + 1,
        other != ingredient ==> stock_of(spent(items, ingredient), other) == stock_of(items, other),
        other != ingredient ==> stock_of(gained(items, ingredient), other) == stock_of(items, other),
{
}

/// The first selected slot at or after `from`.
fn find_selected(slots: &Vec<Slot>, from: usize) -> (at: usize)
    ensures
        at == next_selected(slots@, from as int),
        from <= at || at == slots@.len(),
        at <= slots@.len(),
{
    let mut i: usize = from;
    while i < slots.len()
        invariant
            from <= i,
            next_selected(slots@, from as int) == next_selected(slots@, i as int),
        decreases slots@.len() - i,
    {
        if slots[i].selected.0 {
            return i;
        }
        i += 1;
    }
    slots.len()
}

/// One frame of the inventory on screen. The ingredient of the first
/// selected slot is brewed with that of every selected slot after it, one
/// potion each; where there was such a pair, every selection is cleared.
/// After that, each slot that was clicked and is still in stock is
/// selected. The potions come back in the order in which they were brewed.
pub fn create_potion(inventory: &mut Inventory, slots: &mut Vec<Slot>) -> (potions: Vec<Potion>)
    ensures
        final(inventory).items@ == brewed_in_frame(old(inventory).items@, old(slots)@).0,
        potions@ == brewed_in_frame(old(inventory).items@, old(slots)@).1,
        final(slots)@ == slots_after(old(slots)@, has_pair(old(slots)@), final(inventory).items@),
{
    let mut potions: Vec<Potion> = Vec::new();
    let first = find_selected(slots, 0);
    let mut paired = false;
    if first < slots.len() {
        let base = slots[first].ingredient;
        paired = find_selected(slots, first + 1) < slots.len();
        let ghost start = inventory.items@;
        let mut k: usize = first + 1;
        while k < slots.len()
            invariant
                first < k <= slots@.len(),
                slots@ == old(slots)@,
                base == slots@[first as int].ingredient,
                brewing(start, slots@, base, first + 1) == ({
                    let rest = brewing(inventory.items@, slots@, base, k as int);
                    (rest.0, potions@ + rest.1)
                }),
            decreases slots@.len() - k,
        {
            let ghost stock = inventory.items@;
            let ghost made = potions@;
            if slots[k].selected.0 {
                match inventory.brew(base, slots[k].ingredient) {
                    Some(potion) => {
                        potions.push(potion);
                    },
                    None => {},
                }
            }
            proof {
                let rest = brewing(inventory.items@, slots@, base, k + 1);
                assert(made + brewing(stock, slots@, base, k as int).1 =~= potions@ + rest.1);
            }
            k += 1;
        }
        assert(potions@ + Seq::<Potion>::empty() =~= potions@);
    }
    let ghost before = slots@;
    let mut i: usize = 0;
    while i < slots.len()
        invariant
            i <= slots@.len(),
            slots@.len() == before.len(),
            forall|j: int|
                0 <= j < i ==> slots@[j] == slots_after(before, paired, inventory.items@)[j],
            forall|j: int| i <= j < slots@.len() ==> slots@[j] == before[j],
        decreases slots@.len() - i,
    {
        let slot = slots[i];
        let selected = (slot.clicked && inventory.count(slot.ingredient) != 0) || (!paired
            && slot.selected.0);
        slots.set(
            i,
            Slot {
                ingredient: slot.ingredient,
                selected: SelectedPotion(selected),
                clicked: slot.clicked,
            },
        );
        i += 1;
    }
    assert(slots@ =~= slots_after(before, paired, inventory.items@));
    potions
}

} // verus!
