//! What the keyboard asks of the main character and of the game.

use vstd::prelude::*;

verus! {

/// The keys the game reads in one frame.
#[derive(Clone, Copy, Debug, PartialEq, Eq, Structural)]
pub struct KeyboardState {
    /// `W` is held: move forward.
    pub forward: bool,
    /// `A` is held: move left.
    pub left: bool,
    /// `S` is held: move back.
    pub back: bool,
    /// `D` is held: move right.
    pub right: bool,
    /// Left shift is held: run instead of walk.
    pub run: bool,
    /// Left control is held.
    pub control: bool,
    /// `S` went down in this frame.
    pub s_just_pressed: bool,
}

/// The movement the keys ask for, before it is scaled to a speed: a
/// direction on the ground plane whose components are -1, 0 or 1, and
/// whether to run.
#[derive(Clone, Copy, Debug, PartialEq, Eq, Structural)]
pub struct MovementIntent {
    /// Sideways component: -1 to the left, 1 to the right.
    pub x: i8,
    /// Forward/back component: -1 forward, 1 back.
    pub y: i8,
    /// Run speed rather than walk speed.
    pub running: bool,
}

/// 1 for a held key, 0 otherwise.
pub open spec fn key_value(held: bool) -> int {
    if held { 1 } else { 0 }
}

impl KeyboardState {
    /// The direction and gait the movement keys ask for: each pair of
    /// opposite keys cancels out.
    pub fn movement_intent(&self) -> (intent: MovementIntent)
        ensures
            intent.x == key_value(self.right) - key_value(self.left),
            intent.y == key_value(self.back) - key_value(self.forward),
            intent.running == self.run,
            intent.x == 1 <==> (self.right && !self.left),
            intent.x == -1 <==> (self.left && !self.right),
            intent.x == 0 <==> self.left == self.right,
            intent.y == 1 <==> (self.back && !self.forward),
            intent.y == -1 <==> (self.forward && !self.back),
            intent.y == 0 <==> self.forward == self.back,
    {
        let mut x: i8 = 0;
        let mut y: i8 = 0;
        if self.forward {
            y = y - 1;
        }
        if self.left {
            x = x - 1;
        }
        if self.back {
            y = y + 1;
        }
        if self.right {
            x = x + 1;
        }
        MovementIntent { x, y, running: self.run }
    }

    /// Control+S saves the scene.
    pub fn save_requested(&self) -> (save: bool)
        ensures
            save == (self.control && self.s_just_pressed),
    {
        self.control && self.s_just_pressed
    }
}

} // verus!
