//! The decisions of the interactive viewer, apart from the engine that
//! renders, simulates and reads input: which way the fly camera moves,
//! what a click selects, what the spawn queue releases, and the default
//! simulation switches.

use vstd::prelude::*;

verus! {

/// The simulation switches shown in the inspector.
#[derive(Debug, Clone, Copy, PartialEq, Eq, Structural)]
pub struct SimControls {
    pub physics_on: bool,
    pub gravity_on: bool,
    pub debug_draw: bool,
}

impl Default for SimControls {
    /// Physics and gravity on, debug drawing off.
    fn default() -> (c: Self)
        ensures
            c.physics_on && c.gravity_on && !c.debug_draw,
    {
        SimControls { physics_on: true, gravity_on: true, debug_draw: false }
    }
}

/// Bodies waiting to be spawned.
#[derive(Debug, Clone, Copy, PartialEq, Eq, Structural)]
pub struct SpawnQueue {
    pub cubes: u32,
    pub spheres: u32,
}

impl Default for SpawnQueue {
    /// An empty queue.
    fn default() -> (q: Self)
        ensures
            q.cubes == 0 && q.spheres == 0,
    {
        SpawnQueue { cubes: 0, spheres: 0 }
    }
}

impl SpawnQueue {
    /// Releases every queued body: the returned queue holds what is to be
    /// spawned now, and this queue is left empty.
    pub fn drain(&mut self) -> (batch: SpawnQueue)
        ensures
            batch == *old(self),
            final(self).cubes == 0 && final(self).spheres == 0,
    {
        if self.cubes == 0 && self.spheres == 0 {
            return SpawnQueue { cubes: 0, spheres: 0 };
        }
        let batch = SpawnQueue { cubes: self.cubes, spheres: self.spheres };
        self.cubes = 0;
        self.spheres = 0;
        batch
    }
}

/// What a ray cast from the cursor hit: the entity (by its bits) and
/// whether it may be selected.
#[derive(Debug, Clone, Copy, PartialEq, Eq, Structural)]
pub struct PickHit {
    pub entity: u64,
    pub selectable: bool,
}

/// The selected entity, if any.
#[derive(Debug, Clone, Copy, PartialEq, Eq, Structural)]
pub struct Selection {
    pub selected: Option<u64>,
}

/// Whether a click goes on to cast a picking ray: only when the left button
/// was just pressed and the cursor ray is valid; otherwise the click is
/// ignored and the selection stays as it is.
pub fn click_starts_pick(left_just_pressed: bool, ray_valid: bool) -> (r: bool)
    ensures
        r == (left_just_pressed && ray_valid),
{
    left_just_pressed && ray_valid
}

impl Selection {
    /// Takes the result of a click's ray cast: a selectable entity hit becomes
    /// the selection, anything else clears it. Returns whether something is
    /// selected afterwards.
    pub fn apply_pick(&mut self, hit: Option<PickHit>) -> (selected: bool)
        ensures
            final(self).selected == (match hit {
                Some(h) => if h.selectable {
                    Some(h.entity)
                } else {
                    None
                },
                None => None,
            }),
            selected == final(self).selected is Some,
    {
        if let Some(h) = hit {
            if h.selectable {
                self.selected = Some(h.entity);
                return true;
            }
        }
        self.selected = None;
        false
    }
}

/// The keys the fly camera reads.
#[derive(Debug, Clone, Copy, PartialEq, Eq, Structural)]
pub struct MoveKeys {
    pub w: bool,
    pub s: bool,
    pub a: bool,
    pub d: bool,
    pub arrow_up: bool,
    pub arrow_down: bool,
    pub arrow_left: bool,
    pub arrow_right: bool,
    pub space: bool,
    pub shift_left: bool,
    pub shift_right: bool,
}

/// How many times each camera direction is added to the motion (negative:
/// subtracted), and whether the boost speed applies.
#[derive(Debug, Clone, Copy, PartialEq, Eq, Structural)]
pub struct MoveTerms {
    /// The camera's forward direction.
    pub forward: i8,
    /// The camera's right direction.
    pub right: i8,
    /// The forward direction flattened onto the ground plane.
    pub flat_forward: i8,
    /// The right direction flattened onto the ground plane.
    pub flat_right: i8,
    /// The world's up direction.
    pub up: i8,
    pub boost: bool,
}

/// 1 when `b` holds, else 0.
pub open spec fn count(b: bool) -> int {
    if b {
        1
    } else {
        0
    }
}

fn term(plus: bool, minus: bool) -> (t: i8)
    ensures
        t == count(plus) - count(minus),
{
    let p: i8 = if plus {
        1
    } else {
        0
    };
    let m: i8 = if minus {
        1
    } else {
        0
    };
    p - m
}

/// The motion the pressed keys ask for: W and S move along the view,
/// A/D and the side arrows strafe along it, the up and down arrows move
/// on the ground plane, the side arrows also strafe on the ground plane,
/// Space and left Shift move up and down, right Shift boosts.
pub fn move_terms(keys: MoveKeys) -> (t: MoveTerms)
    ensures
        t.forward == count(keys.w) - count(keys.s),
        t.right == count(keys.d || keys.arrow_right) - count(keys.a || keys.arrow_left),
        t.flat_forward == count(keys.arrow_up) - count(keys.arrow_down),
        t.flat_right == count(keys.arrow_right) - count(keys.arrow_left),
        t.up == count(keys.space) - count(keys.shift_left),
        t.boost == keys.shift_right,
{
    MoveTerms {
        forward: term(keys.w, keys.s),
        right: term(keys.d || keys.arrow_right, keys.a || keys.arrow_left),
        flat_forward: term(keys.arrow_up, keys.arrow_down),
        flat_right: term(keys.arrow_right, keys.arrow_left),
        up: term(keys.space, keys.shift_left),
        boost: keys.shift_right,
    }
}

} // verus!
