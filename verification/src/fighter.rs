//! Fighter data: actions, collision box links and render ordering.
//!
//! Collision boxes themselves carry geometry (points and radii) that this
//! library does not interpret, so a frame is generic over the collision box
//! type `C`; only the structure that refers to boxes by index is modelled here.

use vstd::prelude::*;

verus! {

/// How two linked collision boxes are drawn together.
#[derive(Clone, Copy, Debug, PartialEq, Eq, Structural)]
pub enum LinkType {
    MeldFirst,
    MeldSecond,
    Simple,
}

impl LinkType {
    /// The link type a new link gets when none is chosen.
    pub fn default_link() -> (t: LinkType)
        ensures
            t == LinkType::MeldFirst,
    {
        LinkType::MeldFirst
    }
}

/// A link between the collision boxes at indexes `one` and `two`.
#[derive(Clone, Copy, Debug, PartialEq, Eq, Structural)]
pub struct CollisionBoxLink {
    pub one: usize,
    pub two: usize,
    pub link_type: LinkType,
}

/// Index `i` after the element at index `check` was removed from its list.
pub open spec fn dec_index(i: usize, check: usize) -> usize {
    if i > check {
        (i - 1) as usize
    } else {
        i
    }
}

impl CollisionBoxLink {
    /// Whether the link joins exactly `one` and `two`, in either order.
    pub open spec fn spec_equals(self, one: usize, two: usize) -> bool {
        (self.one == one && self.two == two) || (self.one == two && self.two == one)
    }

    /// Whether `check` is one of the two linked boxes.
    pub open spec fn spec_contains(self, check: usize) -> bool {
        self.one == check || self.two == check
    }

    /// The link after the collision box at index `check` was removed.
    pub open spec fn spec_dec_greater_than(self, check: usize) -> CollisionBoxLink {
        CollisionBoxLink {
            one: dec_index(self.one, check),
            two: dec_index(self.two, check),
            link_type: self.link_type,
        }
    }

    pub fn equals(&self, one: usize, two: usize) -> (r: bool)
        ensures
            r == self.spec_equals(one, two),
    {
        self.one == one && self.two == two || self.one == two && self.two == one
    }

    pub fn contains(&self, check: usize) -> (r: bool)
        ensures
            r == self.spec_contains(check),
    {
        self.one == check || self.two == check
    }

    /// Both indexes above `check` are decremented, keeping the link pointing
    /// at the same boxes once the box at `check` is deleted.
    pub fn dec_greater_than(&self, check: usize) -> (r: CollisionBoxLink)
        ensures
            r == self.spec_dec_greater_than(check),
    {
        let mut one = self.one;
        let mut two = self.two;
        if self.one > check {
            one = one - 1;
        }
        if self.two > check {
            two = two - 1;
        }
        CollisionBoxLink { one, two, link_type: self.link_type }
    }
}

/// An entry of a frame's explicit draw order: a collision box or a link, by index.
#[derive(Clone, Copy, Debug, PartialEq, Eq, Structural)]
pub enum RenderOrder {
    Colbox(usize),
    Link(usize),
}

impl RenderOrder {
    pub fn default_order() -> (r: RenderOrder)
        ensures
            r == RenderOrder::Colbox(0),
    {
        RenderOrder::Colbox(0)
    }

    /// The entry after the element at index `check` of its own list was removed.
    pub open spec fn spec_dec_greater_than(self, check: usize) -> RenderOrder {
        match self {
            RenderOrder::Colbox(i) => RenderOrder::Colbox(dec_index(i, check)),
            RenderOrder::Link(i) => RenderOrder::Link(dec_index(i, check)),
        }
    }

    pub fn dec_greater_than(&self, check: usize) -> (r: RenderOrder)
        ensures
            r == self.spec_dec_greater_than(check),
    {
        match self {
            RenderOrder::Colbox(i) => {
                if *i > check {
                    RenderOrder::Colbox(*i - 1)
                } else {
                    RenderOrder::Colbox(*i)
                }
            },
            RenderOrder::Link(i) => {
                if *i > check {
                    RenderOrder::Link(*i - 1)
                } else {
                    RenderOrder::Link(*i)
                }
            },
        }
    }
}

/// The special effect a hitbox applies.
#[derive(Clone, Copy, Debug, PartialEq, Eq, Structural)]
pub enum HitboxEffect {
    Fire,
    Electric,
    Sleep,
    Reverse,
    Stun,
    Freeze,
    NoEffect,
}

impl HitboxEffect {
    pub fn default_effect() -> (e: HitboxEffect)
        ensures
            e == HitboxEffect::NoEffect,
    {
        HitboxEffect::NoEffect
    }
}

/// Teching window settings of a fighter.
#[derive(Clone, Copy, Debug, PartialEq, Eq, Structural)]
pub struct Tech {
    pub active_window: u64,
    pub locked_window: u64,
}

impl Tech {
    pub fn default_tech() -> (t: Tech)
        ensures
            t.active_window == 20,
            t.locked_window == 20,
    {
        Tech { active_window: 20, locked_window: 20 }
    }
}

/// L-cancel settings of a fighter.
#[derive(Clone, Copy, Debug, PartialEq, Eq, Structural)]
pub struct LCancel {
    pub active_window: u64,
    pub frame_skip: u8,
    pub normal_land: bool,
}

impl LCancel {
    pub fn default_lcancel() -> (l: LCancel)
        ensures
            l.active_window == 7,
            l.frame_skip == 1,
            !l.normal_land,
    {
        LCancel { active_window: 7, frame_skip: 1, normal_land: false }
    }
}

/// A window and duration of a power shield effect.
#[derive(Clone, Copy, Debug, PartialEq, Eq, Structural)]
pub struct PowerShieldEffect {
    pub window: u64,
    pub duration: u64,
}

/// Power shield settings of a fighter.
#[derive(Clone, Copy, Debug, PartialEq, Eq, Structural)]
pub struct PowerShield {
    pub reflect_window: Option<u64>,
    pub parry: Option<PowerShieldEffect>,
    pub enemy_stun: Option<PowerShieldEffect>,
}

impl PowerShield {
    pub fn default_power_shield() -> (p: PowerShield)
        ensures
            p.reflect_window is None,
            p.parry is None,
            p.enemy_stun is None,
    {
        PowerShield { reflect_window: None, parry: None, enemy_stun: None }
    }
}

} // verus!
