use rand::seq::SliceRandom;
use vstd::prelude::*;
use crate::ingredients::{bat_drops, frog_drops, Ingredient};

verus! {

/// The kinds of enemy.
#[derive(Clone, Copy, Debug, PartialEq, Eq, Structural)]
pub enum EnemyType {
    Frog,
    Bat,
    Turtle,
}

/// Where an enemy stands in its round: it gets within reach of the player,
/// winds up, strikes, cools down, and starts over. A frog approaches in
/// jumps with a wait between them. Every stage but `GetInRange` runs on a
/// timer that the game keeps.
#[derive(Clone, Copy, Debug, PartialEq, Eq, Structural)]
pub enum AiStage {
    GetInRange,
    Wait,
    Jumping,
    Charge,
    Attack,
    CoolDown,
    Dieing,
}

impl Default for AiStage {
    fn default() -> (stage: Self)
        ensures
            stage == AiStage::GetInRange,
    {
        AiStage::GetInRange
    }
}

/// What a frame of movement did to an enemy.
#[derive(Clone, Copy, Debug, PartialEq, Eq, Structural)]
pub struct Moved {
    /// The stage the enemy is in after the frame.
    pub stage: AiStage,
    /// Whether it stepped towards its place beside the player.
    pub stepped: bool,
}

/// What a frame did to a dying enemy.
#[derive(Clone, Copy, Debug, PartialEq, Eq, Structural)]
pub struct Died {
    /// The stage the enemy is in after the frame.
    pub stage: AiStage,
    /// Whether it is to be removed from the room, leaving its drop.
    pub gone: bool,
}

/// One of `drops` picked by `SliceRandom::choose` on `rand::thread_rng()`:
/// `None` for an empty list, some element of the list otherwise. Which
/// element is left open.
#[verifier::external_body]
fn choose_drop(drops: &Vec<Ingredient>) -> (picked: Option<Ingredient>)
    ensures
        picked is None <==> drops@.len() == 0,
        picked matches Some(ingredient) ==> drops@.contains(ingredient),
{
    drops.choose(&mut rand::thread_rng()).copied()
}

impl EnemyType {
    /// The stage in which an enemy of this kind enters the room.
    pub open spec fn spec_first_stage(self) -> AiStage {
        match self {
            EnemyType::Frog => AiStage::Wait,
            EnemyType::Bat => AiStage::GetInRange,
            EnemyType::Turtle => AiStage::GetInRange,
        }
    }

    /// The stage in which an enemy of this kind enters the room.
    pub fn first_stage(&self) -> (stage: AiStage)
        ensures
            stage == self.spec_first_stage(),
    {
        match self {
            EnemyType::Frog => AiStage::Wait,
            EnemyType::Bat => AiStage::GetInRange,
            EnemyType::Turtle => AiStage::GetInRange,
        }
    }

    /// What an enemy of this kind may drop.
    pub open spec fn spec_drops(self) -> Seq<Ingredient> {
        match self {
            EnemyType::Frog => seq![
                Ingredient::FrogEyes,
                Ingredient::FrogLungs,
                Ingredient::FrogLegs,
            ],
            EnemyType::Bat => seq![Ingredient::BatWings, Ingredient::BatEyes, Ingredient::BatEars],
            EnemyType::Turtle => Seq::empty(),
        }
    }

    /// What an enemy of this kind may drop: a frog parts of a frog, a bat
    /// parts of a bat, a turtle nothing.
    pub fn drops(&self) -> (drops: Vec<Ingredient>)
        ensures
            drops@ == self.spec_drops(),
            self == EnemyType::Frog ==> forall|ingredient: Ingredient|
                drops@.contains(ingredient) <==> ingredient.is_frog_part(),
            self == EnemyType::Bat ==> forall|ingredient: Ingredient|
                drops@.contains(ingredient) <==> ingredient.is_bat_part(),
            self == EnemyType::Turtle <==> drops@.len() == 0,
    {
        match self {
            EnemyType::Frog => frog_drops(),
            EnemyType::Bat => bat_drops(),
            EnemyType::Turtle => Vec::new(),
        }
    }

    /// Picks at random what an enemy of this kind carries: a part of a
    /// frog for a frog, a part of a bat for a bat, nothing for a turtle.
    pub fn random_drop(&self) -> (drop: Option<Ingredient>)
        ensures
            self == EnemyType::Turtle <==> drop is None,
            self == EnemyType::Frog ==> (drop matches Some(ingredient)
                && ingredient.is_frog_part()),
            self == EnemyType::Bat ==> (drop matches Some(ingredient) && ingredient.is_bat_part()),
    {
        let drops = self.drops();
        choose_drop(&drops)
    }
}

impl AiStage {
    /// The stage after a frame of movement. `in_range` says whether the
    /// enemy has reached its place beside the player, `wait_over` whether
    /// the timer of a wait has run out in this frame, and `jump_over`
    /// whether that of a jump has.
    ///
    /// An enemy that gets in range starts to wind up. A frog that has waited
    /// long enough jumps, in the same frame; a jump ends in range, where the
    /// frog winds up, or after its time, where the frog waits again.
    pub open spec fn spec_moved(self, in_range: bool, wait_over: bool, jump_over: bool) -> Moved {
        let approached = if self == AiStage::GetInRange && in_range {
            AiStage::Charge
        } else {
            self
        };
        let waited = if approached == AiStage::Wait && wait_over {
            AiStage::Jumping
        } else {
            approached
        };
        let jumped = if waited == AiStage::Jumping {
            if in_range {
                AiStage::Charge
            } else if jump_over {
                AiStage::Wait
            } else {
                AiStage::Jumping
            }
        } else {
            waited
        };
        Moved {
            stage: jumped,
            stepped: !in_range && (self == AiStage::GetInRange || waited == AiStage::Jumping),
        }
    }

    /// The stage after a frame of attack, for an enemy of kind `kind` whose
    /// timer has run out in this frame if `timer_over`: winding up leads to
    /// the attack, the attack to cooling down, and cooling down to the next
    /// approach, which a frog begins with a wait.
    pub open spec fn spec_attacked(self, kind: EnemyType, timer_over: bool) -> AiStage {
        if !timer_over {
            self
        } else {
            match self {
                AiStage::Charge => AiStage::Attack,
                AiStage::Attack => AiStage::CoolDown,
                AiStage::CoolDown => if kind == EnemyType::Frog {
                    AiStage::Wait
                } else {
                    AiStage::GetInRange
                },
                _ => self,
            }
        }
    }

    /// What a frame does to an enemy whose health is used up if
    /// `health_gone`: it starts dying, and once the timer of its dying has
    /// run out it is gone.
    pub open spec fn spec_died(self, health_gone: bool, timer_over: bool) -> Died {
        if self == AiStage::Dieing || health_gone {
            Died { stage: AiStage::Dieing, gone: timer_over }
        } else {
            Died { stage: self, gone: false }
        }
    }

    /// The stage after a frame of movement, and whether the enemy stepped.
    pub fn moved(self, in_range: bool, wait_over: bool, jump_over: bool) -> (after: Moved)
        ensures
            after == self.spec_moved(in_range, wait_over, jump_over),
    {
        let mut stage = self;
        let mut stepped = false;
        if stage == AiStage::GetInRange {
            if !in_range {
                stepped = true;
            } else {
                stage = AiStage::Charge;
            }
        }
        if stage == AiStage::Wait {
            if wait_over {
                stage = AiStage::Jumping;
            }
        }
        if stage == AiStage::Jumping {
            if !in_range {
                stepped = true;
                if jump_over {
                    stage = AiStage::Wait;
                }
            } else {
                stage = AiStage::Charge;
            }
        }
        Moved { stage, stepped }
    }

    /// The stage after a frame of attack.
    pub fn attacked(self, kind: EnemyType, timer_over: bool) -> (after: AiStage)
        ensures
            after == self.spec_attacked(kind, timer_over),
    {
        match self {
            AiStage::GetInRange | AiStage::Dieing | AiStage::Jumping | AiStage::Wait => self,
            AiStage::Charge => {
                if timer_over {
                    AiStage::Attack
                } else {
                    AiStage::Charge
                }
            },
            AiStage::Attack => {
                if timer_over {
                    AiStage::CoolDown
                } else {
                    AiStage::Attack
                }
            },
            AiStage::CoolDown => {
                if timer_over {
                    if kind == EnemyType::Frog {
                        AiStage::Wait
                    } else {
                        AiStage::GetInRange
                    }
                } else {
                    AiStage::CoolDown
                }
            },
        }
    }

    /// What a frame does to an enemy that may be dying.
    pub fn died(self, health_gone: bool, timer_over: bool) -> (after: Died)
        ensures
            after == self.spec_died(health_gone, timer_over),
    {
        let mut stage = self;
        if health_gone && stage != AiStage::Dieing {
            stage = AiStage::Dieing;
        }
        let gone = stage == AiStage::Dieing && timer_over;
        Died { stage, gone }
    }

    /// Whether the enemy lunges at the player in this frame: it does while
    /// it attacks.
    pub fn lunges(&self) -> (b: bool)
        ensures
            b == (self == AiStage::Attack),
    {
        *self == AiStage::Attack
    }

    /// Whether the enemy's body stops the player: not while it attacks,
    /// when it passes through.
    pub fn blocks_player(&self) -> (b: bool)
        ensures
            b == (self != AiStage::Attack),
    {
        *self != AiStage::Attack
    }

    /// Whether touching the enemy costs the player a point of health: it
    /// does while the enemy cools down, unless the player is still flashing
    /// from the last hit.
    pub fn hurts_player(&self, player_flashing: bool) -> (b: bool)
        ensures
            b == (!player_flashing && self == AiStage::CoolDown),
    {
        !player_flashing && *self == AiStage::CoolDown
    }
}

/// Movement and attack leave a dying enemy alone, and an enemy that has
/// started to die stays dying until it is gone. Movement changes nothing
/// while an enemy winds up, attacks or cools down, and an attack changes
/// nothing while it approaches: each stage has one system that ends it.
pub proof fn lemma_stages(stage: AiStage, kind: EnemyType, a: bool, b: bool, c: bool)
    ensures
        AiStage::Dieing.spec_moved(a, b, c).stage == AiStage::Dieing,
        AiStage::Dieing.spec_attacked(kind, a) == AiStage::Dieing,
        AiStage::Dieing.spec_died(a, b).stage == AiStage::Dieing,
        stage.spec_died(true, b).stage == AiStage::Dieing,
        stage.spec_died(a, b).gone ==> b,
        stage == AiStage::Charge || stage == AiStage::Attack || stage == AiStage::CoolDown
            ==> stage.spec_moved(a, b, c).stage == stage && !stage.spec_moved(a, b, c).stepped,
        stage == AiStage::GetInRange || stage == AiStage::Wait || stage == AiStage::Jumping
            ==> stage.spec_attacked(kind, a) == stage,
        kind != EnemyType::Frog ==> stage.spec_attacked(kind, a) != AiStage::Wait || stage
            == AiStage::Wait,
{
}

} // verus!
