//! What the held keys ask of the controlled entity.

use vstd::prelude::*;
use nalgebra_glm::Vec3;
use crate::linear::{
    vec3_add, vec3_difference, vec3_from_ints, vec3_neg, vec3_negated, vec3_of, vec3_sub, vec3_sum,
};

verus! {

/// The action flags, each true while its key is held.
#[derive(Clone, Copy, Debug)]
pub struct Actions {
    pub up: bool,
    pub left: bool,
    pub down: bool,
    pub right: bool,
    pub unused_a: bool,
    pub unused_b: bool,
    pub run: bool,
}

/// The keys that act on the scene.
#[derive(Clone, Copy, Debug, PartialEq, Eq, Structural)]
pub enum Key {
    W,
    A,
    S,
    D,
    Q,
    E,
    LShift,
    /// Zooms out.
    R,
    /// Zooms in.
    F,
    /// Any other key.
    Other,
}

/// How the controlled entity moves.
#[derive(Clone, Copy, Debug, PartialEq, Eq, Structural)]
pub enum Movement {
    /// No direction is held.
    Idle,
    /// A direction is held, and run is not.
    Walking,
    /// A direction and run are held.
    Running,
}

impl Actions {
    /// No flag set.
    pub fn new() -> (a: Actions)
        ensures
            a == (Actions {
                up: false,
                left: false,
                down: false,
                right: false,
                unused_a: false,
                unused_b: false,
                run: false,
            }),
    {
        Actions {
            up: false,
            left: false,
            down: false,
            right: false,
            unused_a: false,
            unused_b: false,
            run: false,
        }
    }

    /// The flags once `key` is held, or no more held: W, A, S and D
    /// are up, left, down and right, Q and E the two unused flags, and
    /// the left shift key is run. Any other key changes no flag.
    pub open spec fn with_key(self, key: Key, held: bool) -> Actions {
        match key {
            Key::W => Actions { up: held, ..self },
            Key::A => Actions { left: held, ..self },
            Key::S => Actions { down: held, ..self },
            Key::D => Actions { right: held, ..self },
            Key::Q => Actions { unused_a: held, ..self },
            Key::E => Actions { unused_b: held, ..self },
            Key::LShift => Actions { run: held, ..self },
            Key::R | Key::F | Key::Other => self,
        }
    }

    /// Records that `key` went down.
    pub fn press(&mut self, key: Key)
        ensures
            *final(self) == old(self).with_key(key, true),
    {
        self.set(key, true);
    }

    /// Records that `key` went up.
    pub fn release(&mut self, key: Key)
        ensures
            *final(self) == old(self).with_key(key, false),
    {
        self.set(key, false);
    }

    fn set(&mut self, key: Key, held: bool)
        ensures
            *final(self) == old(self).with_key(key, held),
    {
        match key {
            Key::W => {
                self.up = held;
            },
            Key::A => {
                self.left = held;
            },
            Key::S => {
                self.down = held;
            },
            Key::D => {
                self.right = held;
            },
            Key::Q => {
                self.unused_a = held;
            },
            Key::E => {
                self.unused_b = held;
            },
            Key::LShift => {
                self.run = held;
            },
            Key::R | Key::F | Key::Other => {},
        }
    }

    /// Some direction is held.
    pub open spec fn directed(self) -> bool {
        self.up || self.left || self.down || self.right
    }

    /// The movement these flags ask for.
    pub open spec fn movement(self) -> Movement {
        if !self.directed() {
            Movement::Idle
        } else if !self.run {
            Movement::Walking
        } else {
            Movement::Running
        }
    }

    /// The flip these flags ask for: 0 for left, 1 for right where left is
    /// not held, none where neither is.
    pub open spec fn flip(self) -> Option<i32> {
        if self.left {
            Some(0i32)
        } else if self.right {
            Some(1i32)
        } else {
            None
        }
    }

    /// The factor on the speed: 4 while run is held, else 1.
    pub open spec fn pace(self) -> u32 {
        if self.run {
            4
        } else {
            1
        }
    }

    /// The direction these flags ask for, given the entity's first axis
    /// `left`: upwards for up, downwards for down where up is not held;
    /// then against `left` for left, along `left` for right where left is
    /// not held.
    pub open spec fn direction(self, left: Vec3) -> Vec3 {
        let rest = vec3_of(0, 0, 0);
        let upward = vec3_of(0, 1, 0);
        let vertical = if self.up {
            vec3_sum(rest, upward)
        } else if self.down {
            vec3_difference(rest, upward)
        } else {
            rest
        };
        if self.left {
            vec3_sum(vertical, vec3_negated(left))
        } else if self.right {
            vec3_sum(vertical, left)
        } else {
            vertical
        }
    }
}

/// Classifies the flags: idle, walking or running.
pub fn classify(actions: &Actions) -> (m: Movement)
    ensures
        m == actions.movement(),
{
    if !actions.up && !actions.left && !actions.down && !actions.right {
        Movement::Idle
    } else if !actions.run {
        Movement::Walking
    } else {
        Movement::Running
    }
}

/// The flip the flags ask for, if any.
pub fn flip_for(actions: &Actions) -> (f: Option<i32>)
    ensures
        f == actions.flip(),
{
    if actions.left {
        Some(0)
    } else if actions.right {
        Some(1)
    } else {
        None
    }
}

/// The factor on the speed.
pub fn pace_for(actions: &Actions) -> (p: u32)
    ensures
        p == actions.pace(),
{
    if actions.run {
        4
    } else {
        1
    }
}

/// The direction the flags ask for, given the entity's first axis.
pub fn resolve_direction(actions: &Actions, left: &Vec3) -> (d: Vec3)
    ensures
        d == actions.direction(*left),
{
    let mut direction = vec3_from_ints(0, 0, 0);
    let upward = vec3_from_ints(0, 1, 0);
    if actions.up {
        direction = vec3_add(&direction, &upward);
    } else if actions.down {
        direction = vec3_sub(&direction, &upward);
    }
    if actions.left {
        let against = vec3_neg(left);
        direction = vec3_add(&direction, &against);
    } else if actions.right {
        direction = vec3_add(&direction, left);
    }
    direction
}

} // verus!
