//! The actions a fighter can be in.

use vstd::prelude::*;

verus! {

/// Every action a fighter can perform, in the order the fighter's action
/// definitions are stored.
#[derive(Clone, Copy, Debug, PartialEq, Eq, Structural)]
pub enum Action {
    Spawn,
    SpawnIdle,
    Idle,
    Crouch,
    LedgeIdle,
    Teeter,
    TeeterIdle,
    MissedTechIdle,
    Fall,
    AerialFall,
    Land,
    JumpSquat,
    JumpF,
    JumpB,
    JumpAerialF,
    JumpAerialB,
    Turn,
    TurnRun,
    TurnDash,
    Dash,
    Run,
    RunEnd,
    Walk,
    PassPlatform,
    Damage,
    DamageFly,
    DamageFall,
    LedgeGrab,
    LedgeJump,
    LedgeJumpSlow,
    LedgeGetup,
    LedgeGetupSlow,
    PowerShield,
    ShieldOn,
    Shield,
    ShieldOff,
    RollF,
    RollB,
    SpotDodge,
    AerialDodge,
    SpecialFall,
    SpecialLand,
    TechF,
    TechN,
    TechB,
    MissedTechGetupF,
    MissedTechGetupN,
    MissedTechGetupB,
    Rebound,
    LedgeRoll,
    LedgeRollSlow,
    ShieldBreakFall,
    ShieldBreakGetup,
    Stun,
    MissedTechStart,
    Jab,
    Jab2,
    Jab3,
    Utilt,
    Dtilt,
    Ftilt,
    DashAttack,
    Usmash,
    Dsmash,
    Fsmash,
    Grab,
    DashGrab,
    LedgeAttack,
    LedgeAttackSlow,
    MissedTechAttack,
    Uair,
    Dair,
    Fair,
    Bair,
    Nair,
    UairLand,
    DairLand,
    FairLand,
    BairLand,
    NairLand,
    TauntUp,
    TauntDown,
    TauntLeft,
    TauntRight,
    CrouchStart,
    CrouchEnd,
    Eliminated,
    DummyFramePreStart,
}


/// Every action, in declaration order.
pub open spec fn action_list() -> Seq<Action> {
    seq![
        Action::Spawn,
        Action::SpawnIdle,
        Action::Idle,
        Action::Crouch,
        Action::LedgeIdle,
        Action::Teeter,
        Action::TeeterIdle,
        Action::MissedTechIdle,
        Action::Fall,
        Action::AerialFall,
        Action::Land,
        Action::JumpSquat,
        Action::JumpF,
        Action::JumpB,
        Action::JumpAerialF,
        Action::JumpAerialB,
        Action::Turn,
        Action::TurnRun,
        Action::TurnDash,
        Action::Dash,
        Action::Run,
        Action::RunEnd,
        Action::Walk,
        Action::PassPlatform,
        Action::Damage,
        Action::DamageFly,
        Action::DamageFall,
        Action::LedgeGrab,
        Action::LedgeJump,
        Action::LedgeJumpSlow,
        Action::LedgeGetup,
        Action::LedgeGetupSlow,
        Action::PowerShield,
        Action::ShieldOn,
        Action::Shield,
        Action::ShieldOff,
        Action::RollF,
        Action::RollB,
        Action::SpotDodge,
        Action::AerialDodge,
        Action::SpecialFall,
        Action::SpecialLand,
        Action::TechF,
        Action::TechN,
        Action::TechB,
        Action::MissedTechGetupF,
        Action::MissedTechGetupN,
        Action::MissedTechGetupB,
        Action::Rebound,
        Action::LedgeRoll,
        Action::LedgeRollSlow,
        Action::ShieldBreakFall,
        Action::ShieldBreakGetup,
        Action::Stun,
        Action::MissedTechStart,
        Action::Jab,
        Action::Jab2,
        Action::Jab3,
        Action::Utilt,
        Action::Dtilt,
        Action::Ftilt,
        Action::DashAttack,
        Action::Usmash,
        Action::Dsmash,
        Action::Fsmash,
        Action::Grab,
        Action::DashGrab,
        Action::LedgeAttack,
        Action::LedgeAttackSlow,
        Action::MissedTechAttack,
        Action::Uair,
        Action::Dair,
        Action::Fair,
        Action::Bair,
        Action::Nair,
        Action::UairLand,
        Action::DairLand,
        Action::FairLand,
        Action::BairLand,
        Action::NairLand,
        Action::TauntUp,
        Action::TauntDown,
        Action::TauntLeft,
        Action::TauntRight,
        Action::CrouchStart,
        Action::CrouchEnd,
        Action::Eliminated,
        Action::DummyFramePreStart,
    ]
}

/// Every action, in declaration order.
pub fn all_actions() -> (r: Vec<Action>)
    ensures
        r@ == action_list(),
{
    let r = vec![
        Action::Spawn,
        Action::SpawnIdle,
        Action::Idle,
        Action::Crouch,
        Action::LedgeIdle,
        Action::Teeter,
        Action::TeeterIdle,
        Action::MissedTechIdle,
        Action::Fall,
        Action::AerialFall,
        Action::Land,
        Action::JumpSquat,
        Action::JumpF,
        Action::JumpB,
        Action::JumpAerialF,
        Action::JumpAerialB,
        Action::Turn,
        Action::TurnRun,
        Action::TurnDash,
        Action::Dash,
        Action::Run,
        Action::RunEnd,
        Action::Walk,
        Action::PassPlatform,
        Action::Damage,
        Action::DamageFly,
        Action::DamageFall,
        Action::LedgeGrab,
        Action::LedgeJump,
        Action::LedgeJumpSlow,
        Action::LedgeGetup,
        Action::LedgeGetupSlow,
        Action::PowerShield,
        Action::ShieldOn,
        Action::Shield,
        Action::ShieldOff,
        Action::RollF,
        Action::RollB,
        Action::SpotDodge,
        Action::AerialDodge,
        Action::SpecialFall,
        Action::SpecialLand,
        Action::TechF,
        Action::TechN,
        Action::TechB,
        Action::MissedTechGetupF,
        Action::MissedTechGetupN,
        Action::MissedTechGetupB,
        Action::Rebound,
        Action::LedgeRoll,
        Action::LedgeRollSlow,
        Action::ShieldBreakFall,
        Action::ShieldBreakGetup,
        Action::Stun,
        Action::MissedTechStart,
        Action::Jab,
        Action::Jab2,
        Action::Jab3,
        Action::Utilt,
        Action::Dtilt,
        Action::Ftilt,
        Action::DashAttack,
        Action::Usmash,
        Action::Dsmash,
        Action::Fsmash,
        Action::Grab,
        Action::DashGrab,
        Action::LedgeAttack,
        Action::LedgeAttackSlow,
        Action::MissedTechAttack,
        Action::Uair,
        Action::Dair,
        Action::Fair,
        Action::Bair,
        Action::Nair,
        Action::UairLand,
        Action::DairLand,
        Action::FairLand,
        Action::BairLand,
        Action::NairLand,
        Action::TauntUp,
        Action::TauntDown,
        Action::TauntLeft,
        Action::TauntRight,
        Action::CrouchStart,
        Action::CrouchEnd,
        Action::Eliminated,
        Action::DummyFramePreStart,
    ];
    assert(r@ =~= action_list());
    r
}

impl Action {
    pub fn default_action() -> (a: Action)
        ensures
            a == Action::Spawn,
    {
        Action::Spawn
    }

    /// The aerial attacks.
    pub open spec fn spec_is_air_attack(self) -> bool {
        ||| self == Action::Fair
        ||| self == Action::Bair
        ||| self == Action::Uair
        ||| self == Action::Dair
        ||| self == Action::Nair
    }

    /// The landings that end an aerial attack.
    pub open spec fn spec_is_attack_land(self) -> bool {
        ||| self == Action::FairLand
        ||| self == Action::BairLand
        ||| self == Action::UairLand
        ||| self == Action::DairLand
        ||| self == Action::NairLand
    }

    /// Every kind of landing.
    pub open spec fn spec_is_land(self) -> bool {
        ||| self.spec_is_attack_land()
        ||| self == Action::SpecialLand
        ||| self == Action::Land
    }

    pub fn is_air_attack(&self) -> (r: bool)
        ensures
            r == self.spec_is_air_attack(),
    {
        match self {
            Action::Fair | Action::Bair | Action::Uair | Action::Dair | Action::Nair => true,
            _ => false,
        }
    }

    pub fn is_attack_land(&self) -> (r: bool)
        ensures
            r == self.spec_is_attack_land(),
    {
        match self {
            Action::FairLand | Action::BairLand | Action::UairLand | Action::DairLand
            | Action::NairLand => true,
            _ => false,
        }
    }

    pub fn is_land(&self) -> (r: bool)
        ensures
            r == self.spec_is_land(),
    {
        match self {
            Action::FairLand | Action::BairLand | Action::UairLand | Action::DairLand
            | Action::NairLand | Action::SpecialLand | Action::Land => true,
            _ => false,
        }
    }
}

/// What follows an action whose last frame has played: the next action,
/// and, for a jump squat, that the fighter leaves the ground with a short
/// or a full hop.
#[derive(Clone, Copy, Debug, PartialEq, Eq, Structural)]
pub struct Expiry {
    pub next: Action,
    pub leaves_ground: bool,
    pub short_hop: bool,
}

/// The action that follows `a` when it runs out. `turn_dash`: the stick is
/// held forward past the dash threshold with a dash buffered, while
/// turning; `short_hop`: the jump button was released (or the stick not
/// held up far enough) during the jump squat; `forward`: the stick is not
/// held backwards during the jump squat. `None` for the actions with no
/// expiry of their own (the game stops on those).
pub open spec fn next_action(a: Action, turn_dash: bool, short_hop: bool, forward: bool) -> Option<Expiry> {
    match a {
        Action::Turn => Some(Expiry {
            next: if turn_dash { Action::Dash } else { Action::Idle },
            leaves_ground: false,
            short_hop: false,
        }),
        Action::JumpSquat => Some(Expiry {
            next: if forward { Action::JumpF } else { Action::JumpB },
            leaves_ground: true,
            short_hop,
        }),
        Action::Spawn => Some(Expiry { next: Action::SpawnIdle, leaves_ground: false, short_hop: false }),
        Action::SpawnIdle => Some(Expiry { next: Action::SpawnIdle, leaves_ground: false, short_hop: false }),
        Action::Idle => Some(Expiry { next: Action::Idle, leaves_ground: false, short_hop: false }),
        Action::CrouchStart => Some(Expiry { next: Action::Crouch, leaves_ground: false, short_hop: false }),
        Action::Crouch => Some(Expiry { next: Action::Crouch, leaves_ground: false, short_hop: false }),
        Action::CrouchEnd => Some(Expiry { next: Action::Idle, leaves_ground: false, short_hop: false }),
        Action::Fall => Some(Expiry { next: Action::Fall, leaves_ground: false, short_hop: false }),
        Action::AerialFall => Some(Expiry { next: Action::AerialFall, leaves_ground: false, short_hop: false }),
        Action::Land => Some(Expiry { next: Action::Idle, leaves_ground: false, short_hop: false }),
        Action::JumpF => Some(Expiry { next: Action::Fall, leaves_ground: false, short_hop: false }),
        Action::JumpB => Some(Expiry { next: Action::Fall, leaves_ground: false, short_hop: false }),
        Action::JumpAerialF => Some(Expiry { next: Action::AerialFall, leaves_ground: false, short_hop: false }),
        Action::JumpAerialB => Some(Expiry { next: Action::AerialFall, leaves_ground: false, short_hop: false }),
        Action::TurnDash => Some(Expiry { next: Action::Dash, leaves_ground: false, short_hop: false }),
        Action::TurnRun => Some(Expiry { next: Action::Idle, leaves_ground: false, short_hop: false }),
        Action::Dash => Some(Expiry { next: Action::Run, leaves_ground: false, short_hop: false }),
        Action::Run => Some(Expiry { next: Action::Run, leaves_ground: false, short_hop: false }),
        Action::RunEnd => Some(Expiry { next: Action::Idle, leaves_ground: false, short_hop: false }),
        Action::Walk => Some(Expiry { next: Action::Walk, leaves_ground: false, short_hop: false }),
        Action::PassPlatform => Some(Expiry { next: Action::AerialFall, leaves_ground: false, short_hop: false }),
        Action::Damage => Some(Expiry { next: Action::Idle, leaves_ground: false, short_hop: false }),
        Action::DamageFly => Some(Expiry { next: Action::DamageFall, leaves_ground: false, short_hop: false }),
        Action::DamageFall => Some(Expiry { next: Action::DamageFall, leaves_ground: false, short_hop: false }),
        Action::ShieldOn => Some(Expiry { next: Action::Shield, leaves_ground: false, short_hop: false }),
        Action::Shield => Some(Expiry { next: Action::Shield, leaves_ground: false, short_hop: false }),
        Action::ShieldOff => Some(Expiry { next: Action::Idle, leaves_ground: false, short_hop: false }),
        Action::RollF => Some(Expiry { next: Action::Idle, leaves_ground: false, short_hop: false }),
        Action::RollB => Some(Expiry { next: Action::Idle, leaves_ground: false, short_hop: false }),
        Action::AerialDodge => Some(Expiry { next: Action::SpecialFall, leaves_ground: false, short_hop: false }),
        Action::SpecialFall => Some(Expiry { next: Action::SpecialFall, leaves_ground: false, short_hop: false }),
        Action::SpecialLand => Some(Expiry { next: Action::Idle, leaves_ground: false, short_hop: false }),
        Action::TechF => Some(Expiry { next: Action::Idle, leaves_ground: false, short_hop: false }),
        Action::TechN => Some(Expiry { next: Action::Idle, leaves_ground: false, short_hop: false }),
        Action::TechB => Some(Expiry { next: Action::Idle, leaves_ground: false, short_hop: false }),
        Action::Rebound => Some(Expiry { next: Action::Idle, leaves_ground: false, short_hop: false }),
        Action::Jab => Some(Expiry { next: Action::Idle, leaves_ground: false, short_hop: false }),
        Action::Jab2 => Some(Expiry { next: Action::Idle, leaves_ground: false, short_hop: false }),
        Action::Jab3 => Some(Expiry { next: Action::Idle, leaves_ground: false, short_hop: false }),
        Action::Utilt => Some(Expiry { next: Action::Idle, leaves_ground: false, short_hop: false }),
        Action::Dtilt => Some(Expiry { next: Action::Crouch, leaves_ground: false, short_hop: false }),
        Action::Ftilt => Some(Expiry { next: Action::Idle, leaves_ground: false, short_hop: false }),
        Action::DashAttack => Some(Expiry { next: Action::Idle, leaves_ground: false, short_hop: false }),
        Action::Usmash => Some(Expiry { next: Action::Idle, leaves_ground: false, short_hop: false }),
        Action::Dsmash => Some(Expiry { next: Action::Idle, leaves_ground: false, short_hop: false }),
        Action::Fsmash => Some(Expiry { next: Action::Idle, leaves_ground: false, short_hop: false }),
        Action::Grab => Some(Expiry { next: Action::Idle, leaves_ground: false, short_hop: false }),
        Action::DashGrab => Some(Expiry { next: Action::Idle, leaves_ground: false, short_hop: false }),
        Action::Uair => Some(Expiry { next: Action::Fall, leaves_ground: false, short_hop: false }),
        Action::Dair => Some(Expiry { next: Action::Fall, leaves_ground: false, short_hop: false }),
        Action::Fair => Some(Expiry { next: Action::Fall, leaves_ground: false, short_hop: false }),
        Action::Bair => Some(Expiry { next: Action::Fall, leaves_ground: false, short_hop: false }),
        Action::Nair => Some(Expiry { next: Action::Fall, leaves_ground: false, short_hop: false }),
        Action::UairLand => Some(Expiry { next: Action::Idle, leaves_ground: false, short_hop: false }),
        Action::DairLand => Some(Expiry { next: Action::Idle, leaves_ground: false, short_hop: false }),
        Action::FairLand => Some(Expiry { next: Action::Idle, leaves_ground: false, short_hop: false }),
        Action::BairLand => Some(Expiry { next: Action::Idle, leaves_ground: false, short_hop: false }),
        Action::NairLand => Some(Expiry { next: Action::Idle, leaves_ground: false, short_hop: false }),
        Action::TauntUp => Some(Expiry { next: Action::Idle, leaves_ground: false, short_hop: false }),
        Action::TauntDown => Some(Expiry { next: Action::Idle, leaves_ground: false, short_hop: false }),
        Action::TauntLeft => Some(Expiry { next: Action::Idle, leaves_ground: false, short_hop: false }),
        Action::TauntRight => Some(Expiry { next: Action::Idle, leaves_ground: false, short_hop: false }),
        _ => None,
    }
}

/// The action that follows `a` when it runs out (see `next_action`).
pub fn expired_action(a: Action, turn_dash: bool, short_hop: bool, forward: bool) -> (r: Option<Expiry>)
    ensures
        r == next_action(a, turn_dash, short_hop, forward),
{
    match a {
        Action::Turn => Some(Expiry {
            next: if turn_dash { Action::Dash } else { Action::Idle },
            leaves_ground: false,
            short_hop: false,
        }),
        Action::JumpSquat => Some(Expiry {
            next: if forward { Action::JumpF } else { Action::JumpB },
            leaves_ground: true,
            short_hop,
        }),
        Action::Spawn => Some(Expiry { next: Action::SpawnIdle, leaves_ground: false, short_hop: false }),
        Action::SpawnIdle => Some(Expiry { next: Action::SpawnIdle, leaves_ground: false, short_hop: false }),
        Action::Idle => Some(Expiry { next: Action::Idle, leaves_ground: false, short_hop: false }),
        Action::CrouchStart => Some(Expiry { next: Action::Crouch, leaves_ground: false, short_hop: false }),
        Action::Crouch => Some(Expiry { next: Action::Crouch, leaves_ground: false, short_hop: false }),
        Action::CrouchEnd => Some(Expiry { next: Action::Idle, leaves_ground: false, short_hop: false }),
        Action::Fall => Some(Expiry { next: Action::Fall, leaves_ground: false, short_hop: false }),
        Action::AerialFall => Some(Expiry { next: Action::AerialFall, leaves_ground: false, short_hop: false }),
        Action::Land => Some(Expiry { next: Action::Idle, leaves_ground: false, short_hop: false }),
        Action::JumpF => Some(Expiry { next: Action::Fall, leaves_ground: false, short_hop: false }),
        Action::JumpB => Some(Expiry { next: Action::Fall, leaves_ground: false, short_hop: false }),
        Action::JumpAerialF => Some(Expiry { next: Action::AerialFall, leaves_ground: false, short_hop: false }),
        Action::JumpAerialB => Some(Expiry { next: Action::AerialFall, leaves_ground: false, short_hop: false }),
        Action::TurnDash => Some(Expiry { next: Action::Dash, leaves_ground: false, short_hop: false }),
        Action::TurnRun => Some(Expiry { next: Action::Idle, leaves_ground: false, short_hop: false }),
        Action::Dash => Some(Expiry { next: Action::Run, leaves_ground: false, short_hop: false }),
        Action::Run => Some(Expiry { next: Action::Run, leaves_ground: false, short_hop: false }),
        Action::RunEnd => Some(Expiry { next: Action::Idle, leaves_ground: false, short_hop: false }),
        Action::Walk => Some(Expiry { next: Action::Walk, leaves_ground: false, short_hop: false }),
        Action::PassPlatform => Some(Expiry { next: Action::AerialFall, leaves_ground: false, short_hop: false }),
        Action::Damage => Some(Expiry { next: Action::Idle, leaves_ground: false, short_hop: false }),
        Action::DamageFly => Some(Expiry { next: Action::DamageFall, leaves_ground: false, short_hop: false }),
        Action::DamageFall => Some(Expiry { next: Action::DamageFall, leaves_ground: false, short_hop: false }),
        Action::ShieldOn => Some(Expiry { next: Action::Shield, leaves_ground: false, short_hop: false }),
        Action::Shield => Some(Expiry { next: Action::Shield, leaves_ground: false, short_hop: false }),
        Action::ShieldOff => Some(Expiry { next: Action::Idle, leaves_ground: false, short_hop: false }),
        Action::RollF => Some(Expiry { next: Action::Idle, leaves_ground: false, short_hop: false }),
        Action::RollB => Some(Expiry { next: Action::Idle, leaves_ground: false, short_hop: false }),
        Action::AerialDodge => Some(Expiry { next: Action::SpecialFall, leaves_ground: false, short_hop: false }),
        Action::SpecialFall => Some(Expiry { next: Action::SpecialFall, leaves_ground: false, short_hop: false }),
        Action::SpecialLand => Some(Expiry { next: Action::Idle, leaves_ground: false, short_hop: false }),
        Action::TechF => Some(Expiry { next: Action::Idle, leaves_ground: false, short_hop: false }),
        Action::TechN => Some(Expiry { next: Action::Idle, leaves_ground: false, short_hop: false }),
        Action::TechB => Some(Expiry { next: Action::Idle, leaves_ground: false, short_hop: false }),
        Action::Rebound => Some(Expiry { next: Action::Idle, leaves_ground: false, short_hop: false }),
        Action::Jab => Some(Expiry { next: Action::Idle, leaves_ground: false, short_hop: false }),
        Action::Jab2 => Some(Expiry { next: Action::Idle, leaves_ground: false, short_hop: false }),
        Action::Jab3 => Some(Expiry { next: Action::Idle, leaves_ground: false, short_hop: false }),
        Action::Utilt => Some(Expiry { next: Action::Idle, leaves_ground: false, short_hop: false }),
        Action::Dtilt => Some(Expiry { next: Action::Crouch, leaves_ground: false, short_hop: false }),
        Action::Ftilt => Some(Expiry { next: Action::Idle, leaves_ground: false, short_hop: false }),
        Action::DashAttack => Some(Expiry { next: Action::Idle, leaves_ground: false, short_hop: false }),
        Action::Usmash => Some(Expiry { next: Action::Idle, leaves_ground: false, short_hop: false }),
        Action::Dsmash => Some(Expiry { next: Action::Idle, leaves_ground: false, short_hop: false }),
        Action::Fsmash => Some(Expiry { next: Action::Idle, leaves_ground: false, short_hop: false }),
        Action::Grab => Some(Expiry { next: Action::Idle, leaves_ground: false, short_hop: false }),
        Action::DashGrab => Some(Expiry { next: Action::Idle, leaves_ground: false, short_hop: false }),
        Action::Uair => Some(Expiry { next: Action::Fall, leaves_ground: false, short_hop: false }),
        Action::Dair => Some(Expiry { next: Action::Fall, leaves_ground: false, short_hop: false }),
        Action::Fair => Some(Expiry { next: Action::Fall, leaves_ground: false, short_hop: false }),
        Action::Bair => Some(Expiry { next: Action::Fall, leaves_ground: false, short_hop: false }),
        Action::Nair => Some(Expiry { next: Action::Fall, leaves_ground: false, short_hop: false }),
        Action::UairLand => Some(Expiry { next: Action::Idle, leaves_ground: false, short_hop: false }),
        Action::DairLand => Some(Expiry { next: Action::Idle, leaves_ground: false, short_hop: false }),
        Action::FairLand => Some(Expiry { next: Action::Idle, leaves_ground: false, short_hop: false }),
        Action::BairLand => Some(Expiry { next: Action::Idle, leaves_ground: false, short_hop: false }),
        Action::NairLand => Some(Expiry { next: Action::Idle, leaves_ground: false, short_hop: false }),
        Action::TauntUp => Some(Expiry { next: Action::Idle, leaves_ground: false, short_hop: false }),
        Action::TauntDown => Some(Expiry { next: Action::Idle, leaves_ground: false, short_hop: false }),
        Action::TauntLeft => Some(Expiry { next: Action::Idle, leaves_ground: false, short_hop: false }),
        Action::TauntRight => Some(Expiry { next: Action::Idle, leaves_ground: false, short_hop: false }),
        _ => None,
    }
}


/// Actions that go on as they are when they run out: standing, crouching,
/// falling, running, walking, tumbling and holding the shield.
pub proof fn law_held_actions_repeat(a: Action, turn_dash: bool, short_hop: bool, forward: bool)
    requires
        a == Action::SpawnIdle || a == Action::Idle || a == Action::Crouch || a == Action::Fall
            || a == Action::AerialFall || a == Action::Run || a == Action::Walk || a
            == Action::DamageFall || a == Action::Shield || a == Action::SpecialFall,
    ensures
        next_action(a, turn_dash, short_hop, forward) == Some(
            Expiry { next: a, leaves_ground: false, short_hop: false },
        ),
{
}

/// Actions that start a held state lead into it: spawning into waiting,
/// crouching down into the crouch, raising the shield into holding it, a
/// dash into the run, a turn dash into the dash, being launched into
/// tumbling, an air dodge into the helpless fall, and a down tilt into the
/// crouch.
pub proof fn law_startups_lead_into_what_they_start(turn_dash: bool, short_hop: bool, forward: bool)
    ensures
        next_action(Action::Spawn, turn_dash, short_hop, forward)->0.next == Action::SpawnIdle,
        next_action(Action::CrouchStart, turn_dash, short_hop, forward)->0.next == Action::Crouch,
        next_action(Action::ShieldOn, turn_dash, short_hop, forward)->0.next == Action::Shield,
        next_action(Action::Dash, turn_dash, short_hop, forward)->0.next == Action::Run,
        next_action(Action::TurnDash, turn_dash, short_hop, forward)->0.next == Action::Dash,
        next_action(Action::DamageFly, turn_dash, short_hop, forward)->0.next == Action::DamageFall,
        next_action(Action::AerialDodge, turn_dash, short_hop, forward)->0.next == Action::SpecialFall,
        next_action(Action::Dtilt, turn_dash, short_hop, forward)->0.next == Action::Crouch,
{
}

/// Jumps and aerial attacks end in a fall: ground jumps and aerials in the
/// fall, air jumps and dropping through a platform in the aerial fall.
pub proof fn law_jumps_and_aerials_end_falling(a: Action, turn_dash: bool, short_hop: bool, forward: bool)
    requires
        a == Action::JumpF || a == Action::JumpB || a == Action::JumpAerialF || a == Action::JumpAerialB
            || a == Action::PassPlatform || a == Action::Uair || a == Action::Dair || a == Action::Fair
            || a == Action::Bair || a == Action::Nair,
    ensures
        next_action(a, turn_dash, short_hop, forward) matches Some(e) && e.next == (
        if a == Action::JumpAerialF || a == Action::JumpAerialB || a == Action::PassPlatform {
            Action::AerialFall
        } else {
            Action::Fall
        }),
{
}

/// Actions that finish back on the ground end standing: landings, ending a
/// crouch, run or turn run, taking damage, dropping the shield, rolls, techs,
/// rebounds, ground attacks but the down tilt, grabs and taunts.
pub proof fn law_finished_actions_return_to_idle(a: Action, turn_dash: bool, short_hop: bool, forward: bool)
    requires
        a == Action::CrouchEnd || a == Action::Land || a == Action::TurnRun || a == Action::RunEnd
            || a == Action::Damage || a == Action::ShieldOff || a == Action::RollF || a == Action::RollB
            || a == Action::SpecialLand || a == Action::TechF || a == Action::TechN || a == Action::TechB
            || a == Action::Rebound || a == Action::Jab || a == Action::Jab2 || a == Action::Jab3 || a
            == Action::Utilt || a == Action::Ftilt || a == Action::DashAttack || a == Action::Usmash || a
            == Action::Dsmash || a == Action::Fsmash || a == Action::Grab || a == Action::DashGrab || a
            == Action::UairLand || a == Action::DairLand || a == Action::FairLand || a
            == Action::BairLand || a == Action::NairLand || a == Action::TauntUp || a
            == Action::TauntDown || a == Action::TauntLeft || a == Action::TauntRight,
    ensures
        next_action(a, turn_dash, short_hop, forward) == Some(
            Expiry { next: Action::Idle, leaves_ground: false, short_hop: false },
        ),
{
}

/// A turn becomes a dash exactly when a turn dash is buffered; otherwise the
/// fighter stands.
pub proof fn law_turn_dashes_only_when_buffered(turn_dash: bool, short_hop: bool, forward: bool)
    ensures
        next_action(Action::Turn, turn_dash, short_hop, forward) == Some(
            Expiry {
                next: if turn_dash { Action::Dash } else { Action::Idle },
                leaves_ground: false,
                short_hop: false,
            },
        ),
{
}

/// The jump squat is the one action that leaves the ground when it runs
/// out: into a forward jump unless the stick holds backwards, short exactly
/// when a short hop was asked for. Only the turn and the jump squat depend
/// on the stick and buttons.
pub proof fn law_only_the_jump_squat_leaves_the_ground(
    a: Action,
    turn_dash: bool,
    short_hop: bool,
    forward: bool,
    turn_dash2: bool,
    short_hop2: bool,
    forward2: bool,
)
    ensures
        next_action(Action::JumpSquat, turn_dash, short_hop, forward) == Some(
            Expiry {
                next: if forward { Action::JumpF } else { Action::JumpB },
                leaves_ground: true,
                short_hop,
            },
        ),
        a != Action::JumpSquat ==> (next_action(a, turn_dash, short_hop, forward) matches Some(e)
            ==> !e.leaves_ground && !e.short_hop),
        a != Action::JumpSquat && a != Action::Turn ==> next_action(a, turn_dash, short_hop, forward)
            == next_action(a, turn_dash2, short_hop2, forward2),
{
}

} // verus!
