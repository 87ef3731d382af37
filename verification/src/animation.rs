use vstd::prelude::*;
use crate::enemy::{AiStage, EnemyType};

verus! {

/// Which frame of its sprite sheet a creature shows.
#[derive(Clone, Copy, Debug, PartialEq, Eq, Structural)]
pub struct Animation {
    pub current_frame: usize,
}

/// What the player is doing, as far as its picture goes.
#[derive(Clone, Copy, Debug, PartialEq, Eq, Structural)]
pub struct PlayerPose {
    /// Whether the player is walking.
    pub moving: bool,
    /// Whether the player is walking up the screen.
    pub moving_up: bool,
    pub rolling: bool,
    pub swinging: bool,
    /// How far the swing has come, in quarters of its time.
    pub swing_quarter: u8,
}

/// The frame that follows `frame` in a cycle of two, `low` and `low + 1`.
pub open spec fn flip(frame: usize, low: usize) -> usize {
    if frame == low {
        (low + 1) as usize
    } else {
        low
    }
}

/// The frame that follows `frame` in a cycle of three that starts at `low`.
pub open spec fn cycle(frame: usize, low: usize) -> usize {
    if frame == low {
        (low + 1) as usize
    } else if frame == low + 1 {
        (low + 2) as usize
    } else {
        low
    }
}

/// The frame a frog shows after `frame`, where `tick` says whether the
/// animation timer has run out.
pub open spec fn frog_frame(stage: AiStage, frame: usize, tick: bool) -> usize {
    match stage {
        AiStage::Jumping => 5,
        AiStage::Charge => if tick {
            flip(frame, 3)
        } else {
            frame
        },
        AiStage::Dieing => 7,
        AiStage::Attack => if frame == 2 || frame == 6 {
            if tick {
                6
            } else {
                frame
            }
        } else {
            2
        },
        _ => if tick {
            flip(frame, 0)
        } else {
            frame
        },
    }
}

/// The frame a turtle shows after `frame`.
pub open spec fn turtle_frame(stage: AiStage, frame: usize, tick: bool) -> usize {
    match stage {
        AiStage::Charge => if tick {
            flip(frame, 2)
        } else {
            frame
        },
        AiStage::Dieing => 5,
        AiStage::Attack => 4,
        _ => if tick {
            flip(frame, 0)
        } else {
            frame
        },
    }
}

/// The frame a bat shows after `frame`.
pub open spec fn bat_frame(stage: AiStage, frame: usize, tick: bool) -> usize {
    match stage {
        AiStage::Charge => if tick {
            cycle(frame, 4)
        } else {
            frame
        },
        AiStage::Dieing => 7,
        AiStage::Attack => 6,
        _ => if tick {
            cycle(frame, 0)
        } else {
            frame
        },
    }
}

/// The frame the player shows after `frame`: a roll and a swing have
/// frames of their own, walking flips between two, and standing still
/// shows the first.
pub open spec fn player_frame(pose: PlayerPose, frame: usize, tick: bool) -> usize {
    if pose.rolling {
        2
    } else if pose.swinging {
        (5 + pose.swing_quarter) as usize
    } else if !pose.moving {
        0
    } else if !tick {
        frame
    } else if pose.moving_up {
        flip(frame, 3)
    } else if frame == 1 {
        0
    } else {
        1
    }
}

/// The frame an enemy of kind `kind` shows after `frame`.
pub open spec fn enemy_frame(kind: EnemyType, stage: AiStage, frame: usize, tick: bool) -> usize {
    match kind {
        EnemyType::Frog => frog_frame(stage, frame, tick),
        EnemyType::Bat => bat_frame(stage, frame, tick),
        EnemyType::Turtle => turtle_frame(stage, frame, tick),
    }
}

impl Animation {
    /// Moves a frog's animation on by one frame of the game.
    pub fn animate_frog(&mut self, stage: AiStage, tick: bool)
        ensures
            final(self).current_frame == frog_frame(stage, old(self).current_frame, tick),
    {
        match stage {
            AiStage::Jumping => {
                self.current_frame = 5;
            },
            AiStage::Charge => {
                if tick {
                    if self.current_frame == 3 {
                        self.current_frame = 4;
                    } else {
                        self.current_frame = 3;
                    }
                }
            },
            AiStage::Dieing => {
                self.current_frame = 7;
            },
            AiStage::Attack => {
                if self.current_frame == 2 || self.current_frame == 6 {
                    if tick {
                        self.current_frame = 6;
                    }
                } else {
                    self.current_frame = 2;
                }
            },
            _ => {
                if tick {
                    if self.current_frame == 0 {
                        self.current_frame = 1;
                    } else {
                        self.current_frame = 0;
                    }
                }
            },
        }
    }

    /// Moves a turtle's animation on by one frame of the game.
    pub fn animate_turtle(&mut self, stage: AiStage, tick: bool)
        ensures
            final(self).current_frame == turtle_frame(stage, old(self).current_frame, tick),
    {
        match stage {
            AiStage::Charge => {
                if tick {
                    if self.current_frame == 2 {
                        self.current_frame = 3;
                    } else {
                        self.current_frame = 2;
                    }
                }
            },
            AiStage::Dieing => {
                self.current_frame = 5;
            },
            AiStage::Attack => {
                self.current_frame = 4;
            },
            _ => {
                if tick {
                    if self.current_frame == 0 {
                        self.current_frame = 1;
                    } else {
                        self.current_frame = 0;
                    }
                }
            },
        }
    }

    /// Moves a bat's animation on by one frame of the game.
    pub fn animate_bat(&mut self, stage: AiStage, tick: bool)
        ensures
            final(self).current_frame == bat_frame(stage, old(self).current_frame, tick),
    {
        match stage {
            AiStage::Charge => {
                if tick {
                    if self.current_frame == 4 {
                        self.current_frame = 5;
                    } else if self.current_frame == 5 {
                        self.current_frame = 6;
                    } else {
                        self.current_frame = 4;
                    }
                }
            },
            AiStage::Dieing => {
                self.current_frame = 7;
            },
            AiStage::Attack => {
                self.current_frame = 6;
            },
            _ => {
                if tick {
                    if self.current_frame == 0 {
                        self.current_frame = 1;
                    } else if self.current_frame == 1 {
                        self.current_frame = 2;
                    } else {
                        self.current_frame = 0;
                    }
                }
            },
        }
    }

    /// Moves the animation of an enemy of kind `kind` on by one frame of
    /// the game.
    pub fn animate_enemy(&mut self, kind: EnemyType, stage: AiStage, tick: bool)
        ensures
            final(self).current_frame == enemy_frame(kind, stage, old(self).current_frame, tick),
    {
        match kind {
            EnemyType::Frog => self.animate_frog(stage, tick),
            EnemyType::Bat => self.animate_bat(stage, tick),
            EnemyType::Turtle => self.animate_turtle(stage, tick),
        }
    }

    /// Moves the player's animation on by one frame of the game.
    pub fn animate_player(&mut self, pose: PlayerPose, tick: bool)
        ensures
            final(self).current_frame == player_frame(pose, old(self).current_frame, tick),
    {
        if pose.rolling {
            self.current_frame = 2;
            return;
        }
        if pose.swinging {
            self.current_frame = 5 + pose.swing_quarter as usize;
            return;
        }
        if tick {
            if pose.moving_up {
                if self.current_frame == 3 {
                    self.current_frame = 4;
                } else {
                    self.current_frame = 3;
                }
            } else if self.current_frame == 1 {
                self.current_frame = 0;
            } else {
                self.current_frame = 1;
            }
        }
        if !pose.moving {
            self.current_frame = 0;
        }
    }
}

/// An animation never leaves its sprite sheet: from one of the eight frames
/// of a frog or a bat, the six of a turtle, or the ten of the player, the
/// next frame is again one of them.
pub proof fn lemma_frames_stay_on_sheet(
    stage: AiStage,
    pose: PlayerPose,
    frame: usize,
    tick: bool,
)
    ensures
        frame < 8 ==> frog_frame(stage, frame, tick) < 8,
        frame < 8 ==> bat_frame(stage, frame, tick) < 8,
        frame < 6 ==> turtle_frame(stage, frame, tick) < 6,
        frame < 10 && pose.swing_quarter <= 4 ==> player_frame(pose, frame, tick) < 10,
{
}

} // verus!
