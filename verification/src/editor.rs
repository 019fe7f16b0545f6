//! The editor's keyboard shortcuts while the game is paused: choosing what
//! to edit, stepping through the game, and the edits of a fighter's frame or
//! of the stage. Where an edit needs the mouse position or geometry, the
//! caller carries it out.

use vstd::prelude::*;
use crate::action::Action;
use crate::fighter::LinkType;
use crate::game::Edit;
use crate::text::str_eq;

verus! {

/// The keys pressed this frame that the paused editor reads.
#[derive(Clone, Copy, Debug, PartialEq, Eq, Structural)]
pub struct EditorKeys {
    /// The key that switches to editing the stage.
    pub stage: bool,
    /// The keys 1 to 4, which choose a player.
    pub one: bool,
    pub two: bool,
    pub three: bool,
    pub four: bool,
    /// Whether shift is held.
    pub shift: bool,
    pub j: bool,
    pub k: bool,
    pub h: bool,
    pub l: bool,
    pub space: bool,
    pub u: bool,
    pub i: bool,
    pub enter: bool,
    pub a: bool,
    pub b: bool,
    pub d: bool,
    pub e: bool,
    pub f: bool,
    pub m: bool,
    pub n: bool,
    pub q: bool,
    pub r: bool,
    pub s: bool,
    pub v: bool,
    pub w: bool,
    pub x: bool,
    pub z: bool,
    pub left_bracket: bool,
    pub right_bracket: bool,
    pub comma: bool,
    pub period: bool,
}

/// How the paused game moves on.
#[derive(Clone, Copy, Debug, PartialEq, Eq, Structural)]
pub enum Flow {
    Stay,
    /// Step a frame back through the replay (J).
    StepBackwards,
    /// Step a frame forward through the replay (K).
    StepForwards,
    /// Play the replay backwards (H).
    PlayBackwards,
    /// Play the replay forwards (L).
    PlayForwards,
    /// Play one frame of the game (space).
    StepOnce,
    /// Remember this frame (U).
    SaveFrame,
    /// Leave the pause (enter).
    Resume,
}

/// The edits of the selected fighter's current frame asked for this frame.
#[derive(Clone, Copy, Debug, PartialEq, Eq, Structural)]
pub struct FighterEdits {
    /// Copy the frame (V).
    pub copy_frame: bool,
    /// Replace the frame by the copied one (B).
    pub paste_frame: bool,
    /// Add frames after the current one (M).
    pub new_frame: bool,
    /// Delete the frame (N).
    pub delete_frame: bool,
    /// Start moving the selected boxes with the mouse (A).
    pub start_move: bool,
    /// Delete the selected boxes (D).
    pub delete_colboxes: bool,
    /// Add a box at the mouse, linked to the selected boxes this way (F;
    /// shift for a simple link).
    pub add_colbox: Option<LinkType>,
    /// Shrink the selected boxes ([).
    pub shrink_colboxes: bool,
    /// Grow the selected boxes (]).
    pub grow_colboxes: bool,
    /// Send the selected boxes to the front (,).
    pub send_to_front: bool,
    /// Send the selected boxes to the back (.).
    pub send_to_back: bool,
    /// Point the selected hitboxes towards the mouse (Q).
    pub point_angles: bool,
}

/// The edits of the stage asked for this frame.
#[derive(Clone, Copy, Debug, PartialEq, Eq, Structural)]
pub struct StageEdits {
    /// Start moving the selected elements with the mouse (A).
    pub start_move: bool,
    /// Delete the selected elements (D).
    pub delete: bool,
    /// Add surfaces at the mouse: decorative (Q), ceiling (W), wall (E),
    /// floor (R), platform (F).
    pub add_decorative: bool,
    pub add_ceiling: bool,
    pub add_wall: bool,
    pub add_floor: bool,
    pub add_platform: bool,
    /// Add a spawn point (Z) or a respawn point (X) at the mouse.
    pub add_spawn: bool,
    pub add_respawn: bool,
    /// Join the selected surface ends, or split them apart when they are
    /// joined (S).
    pub join_or_split: bool,
}

/// What the editor does this frame.
#[derive(Clone, Copy, Debug, PartialEq, Eq, Structural)]
pub struct EditorStep {
    /// What is edited from now on.
    pub edit: Edit,
    /// A player was chosen, so the shown frame is read again.
    pub frame_changed: bool,
    pub flow: Flow,
    pub fighter: FighterEdits,
    pub stage: StageEdits,
}

pub open spec fn no_fighter_edits() -> FighterEdits {
    FighterEdits {
        copy_frame: false,
        paste_frame: false,
        new_frame: false,
        delete_frame: false,
        start_move: false,
        delete_colboxes: false,
        add_colbox: None,
        shrink_colboxes: false,
        grow_colboxes: false,
        send_to_front: false,
        send_to_back: false,
        point_angles: false,
    }
}

pub open spec fn no_stage_edits() -> StageEdits {
    StageEdits {
        start_move: false,
        delete: false,
        add_decorative: false,
        add_ceiling: false,
        add_wall: false,
        add_floor: false,
        add_platform: false,
        add_spawn: false,
        add_respawn: false,
        join_or_split: false,
    }
}

/// The player chosen by a key, as a fighter edit or, with shift, a player
/// edit.
pub open spec fn chosen(p: usize, shift: bool) -> Edit {
    if shift {
        Edit::Player(p)
    } else {
        Edit::Fighter(p)
    }
}

/// What is edited after this frame's keys, and whether a player was chosen.
/// A player key only counts when that many players play.
pub open spec fn edit_after(edit: Edit, players_len: usize, keys: EditorKeys) -> (Edit, bool) {
    if keys.stage {
        (Edit::Stage, false)
    } else if keys.one && players_len >= 1 {
        (chosen(0, keys.shift), true)
    } else if keys.two && players_len >= 2 {
        (chosen(1, keys.shift), true)
    } else if keys.three && players_len >= 3 {
        (chosen(2, keys.shift), true)
    } else if keys.four && players_len >= 4 {
        (chosen(3, keys.shift), true)
    } else {
        (edit, false)
    }
}

/// How the game moves on: the first of J, K, H, L, space, U, I and enter
/// that is pressed decides (I does nothing).
pub open spec fn flow_of(keys: EditorKeys) -> Flow {
    if keys.j {
        Flow::StepBackwards
    } else if keys.k {
        Flow::StepForwards
    } else if keys.h {
        Flow::PlayBackwards
    } else if keys.l {
        Flow::PlayForwards
    } else if keys.space {
        Flow::StepOnce
    } else if keys.u {
        Flow::SaveFrame
    } else if keys.i {
        Flow::Stay
    } else if keys.enter {
        Flow::Resume
    } else {
        Flow::Stay
    }
}

/// The frame edits of the keys, while no box is being moved.
pub open spec fn fighter_edits_of(keys: EditorKeys, has_selection: bool) -> FighterEdits {
    FighterEdits {
        copy_frame: keys.v,
        paste_frame: keys.b,
        new_frame: keys.m,
        delete_frame: keys.n,
        start_move: keys.a && has_selection,
        delete_colboxes: keys.d,
        add_colbox: if keys.f {
            Some(
                if keys.shift {
                    LinkType::Simple
                } else {
                    LinkType::MeldFirst
                },
            )
        } else {
            None
        },
        shrink_colboxes: keys.left_bracket,
        grow_colboxes: keys.right_bracket,
        send_to_front: keys.comma,
        send_to_back: keys.period,
        point_angles: keys.q,
    }
}

/// The stage edits of the keys, while nothing is being moved.
pub open spec fn stage_edits_of(keys: EditorKeys, has_selection: bool) -> StageEdits {
    StageEdits {
        start_move: keys.a && has_selection,
        delete: keys.d,
        add_decorative: keys.q,
        add_ceiling: keys.w,
        add_wall: keys.e,
        add_floor: keys.r,
        add_platform: keys.f,
        add_spawn: keys.z,
        add_respawn: keys.x,
        join_or_split: keys.s,
    }
}

/// What the paused editor does with this frame's keys: `edit` is what was
/// edited, `players_len` how many players play, `moving` whether the
/// selection is being moved with the mouse (then no edit key counts) and
/// `has_selection` whether anything of what is edited is selected.
pub open spec fn editor_step(
    edit: Edit,
    players_len: usize,
    keys: EditorKeys,
    moving: bool,
    has_selection: bool,
) -> EditorStep {
    let (e, changed) = edit_after(edit, players_len, keys);
    EditorStep {
        edit: e,
        frame_changed: changed,
        flow: flow_of(keys),
        fighter: if e is Fighter && !moving {
            fighter_edits_of(keys, has_selection)
        } else {
            no_fighter_edits()
        },
        stage: if e is Stage && !moving {
            stage_edits_of(keys, has_selection)
        } else {
            no_stage_edits()
        },
    }
}

fn chosen_exec(p: usize, shift: bool) -> (e: Edit)
    ensures
        e == chosen(p, shift),
{
    if shift {
        Edit::Player(p)
    } else {
        Edit::Fighter(p)
    }
}

fn edit_after_exec(edit: Edit, players_len: usize, keys: &EditorKeys) -> (r: (Edit, bool))
    ensures
        r == edit_after(edit, players_len, *keys),
{
    if keys.stage {
        (Edit::Stage, false)
    } else if keys.one && players_len >= 1 {
        (chosen_exec(0, keys.shift), true)
    } else if keys.two && players_len >= 2 {
        (chosen_exec(1, keys.shift), true)
    } else if keys.three && players_len >= 3 {
        (chosen_exec(2, keys.shift), true)
    } else if keys.four && players_len >= 4 {
        (chosen_exec(3, keys.shift), true)
    } else {
        (edit, false)
    }
}

fn flow_exec(keys: &EditorKeys) -> (f: Flow)
    ensures
        f == flow_of(*keys),
{
    if keys.j {
        Flow::StepBackwards
    } else if keys.k {
        Flow::StepForwards
    } else if keys.h {
        Flow::PlayBackwards
    } else if keys.l {
        Flow::PlayForwards
    } else if keys.space {
        Flow::StepOnce
    } else if keys.u {
        Flow::SaveFrame
    } else if keys.i {
        Flow::Stay
    } else if keys.enter {
        Flow::Resume
    } else {
        Flow::Stay
    }
}

/// What the paused editor does with this frame's keys (see `editor_step`).
pub fn editor_keys(edit: Edit, players_len: usize, keys: &EditorKeys, moving: bool, has_selection: bool) -> (r:
    EditorStep)
    ensures
        r == editor_step(edit, players_len, *keys, moving, has_selection),
{
    let (e, changed) = edit_after_exec(edit, players_len, keys);
    let fighter = if matches!(e, Edit::Fighter(_)) && !moving {
        FighterEdits {
            copy_frame: keys.v,
            paste_frame: keys.b,
            new_frame: keys.m,
            delete_frame: keys.n,
            start_move: keys.a && has_selection,
            delete_colboxes: keys.d,
            add_colbox: if keys.f {
                Some(
                    if keys.shift {
                        LinkType::Simple
                    } else {
                        LinkType::MeldFirst
                    },
                )
            } else {
                None
            },
            shrink_colboxes: keys.left_bracket,
            grow_colboxes: keys.right_bracket,
            send_to_front: keys.comma,
            send_to_back: keys.period,
            point_angles: keys.q,
        }
    } else {
        FighterEdits {
            copy_frame: false,
            paste_frame: false,
            new_frame: false,
            delete_frame: false,
            start_move: false,
            delete_colboxes: false,
            add_colbox: None,
            shrink_colboxes: false,
            grow_colboxes: false,
            send_to_front: false,
            send_to_back: false,
            point_angles: false,
        }
    };
    let stage = if matches!(e, Edit::Stage) && !moving {
        StageEdits {
            start_move: keys.a && has_selection,
            delete: keys.d,
            add_decorative: keys.q,
            add_ceiling: keys.w,
            add_wall: keys.e,
            add_floor: keys.r,
            add_platform: keys.f,
            add_spawn: keys.z,
            add_respawn: keys.x,
            join_or_split: keys.s,
        }
    } else {
        StageEdits {
            start_move: false,
            delete: false,
            add_decorative: false,
            add_ceiling: false,
            add_wall: false,
            add_floor: false,
            add_platform: false,
            add_spawn: false,
            add_respawn: false,
            join_or_split: false,
        }
    };
    EditorStep { edit: e, frame_changed: changed, flow: flow_exec(keys), fighter, stage }
}

/// How many frames a new-frame key adds: for a landing action, one more
/// than the frames the landing skips, so that stepping through the action
/// shows the same frames; else one.
pub open spec fn new_frame_count(action: Option<Action>, land_frame_skip: u8) -> u64 {
    match action {
        Some(a) => if a.spec_is_land() {
            (land_frame_skip + 1) as u64
        } else {
            1
        },
        None => 1,
    }
}

/// How many frames a new-frame key adds (see `new_frame_count`).
pub fn frames_to_add(action: Option<Action>, land_frame_skip: u8) -> (n: u64)
    ensures
        n == new_frame_count(action, land_frame_skip),
{
    match action {
        Some(a) => if a.is_land() {
            land_frame_skip as u64 + 1
        } else {
            1
        },
        None => 1,
    }
}

/// Where a player is in its fighter's actions: the fighter's key, the
/// action's index and the frame's index.
pub struct PlayerFrame {
    pub fighter: String,
    pub action: u64,
    pub frame: u64,
}

/// Whether a deleted frame moves this player back: it plays that fighter's
/// action and stands on the frame that no longer exists.
pub open spec fn moved_back(p: PlayerFrame, fighter: Seq<char>, action: u64, frames_left: u64) -> bool {
    p.fighter@ == fighter && p.action == action && p.frame == frames_left
}

/// After a frame of `fighter`'s action `action` was deleted, leaving
/// `frames_left` frames, every player that stood on the frame past the end
/// steps back onto the last one, so that it stays in that action; the
/// others are left as they are.
pub fn correct_frames_after_delete(players: &mut Vec<PlayerFrame>, fighter: &str, action: u64, frames_left: u64)
    requires
        frames_left >= 1,
    ensures
        final(players)@.len() == old(players)@.len(),
        forall|i: int|
            0 <= i < old(players)@.len() ==> {
                let o = #[trigger] old(players)@[i];
                let n = final(players)@[i];
                &&& n.fighter == o.fighter
                &&& n.action == o.action
                &&& n.frame == if moved_back(o, fighter@, action, frames_left) {
                    (o.frame - 1) as u64
                } else {
                    o.frame
                }
            },
{
    let mut i: usize = 0;
    while i < players.len()
        invariant
            i <= players@.len(),
            frames_left >= 1,
            players@.len() == old(players)@.len(),
            forall|j: int|
                0 <= j < i ==> {
                    let o = #[trigger] old(players)@[j];
                    let n = players@[j];
                    &&& n.fighter == o.fighter
                    &&& n.action == o.action
                    &&& n.frame == if moved_back(o, fighter@, action, frames_left) {
                        (o.frame - 1) as u64
                    } else {
                        o.frame
                    }
                },
            forall|j: int| i <= j < players@.len() ==> #[trigger] players@[j] == old(players)@[j],
        decreases players@.len() - i,
    {
        let back = str_eq(players[i].fighter.as_str(), fighter) && players[i].action == action
            && players[i].frame == frames_left;
        if back {
            players[i].frame = players[i].frame - 1;
        }
        i = i + 1;
    }
}


/// While a fighter is edited and nothing is moved, each frame edit is asked
/// for exactly by its key: V copies, B pastes, M adds frames, N deletes the
/// frame, A starts a move of a selection, D deletes boxes, F adds a box
/// (linked simply with shift, else melded), `[` shrinks and `]` grows the
/// boxes, `,` and `.` send them to the front and back, Q points the
/// hitboxes. Otherwise no frame edit is asked for.
pub proof fn law_fighter_edit_keys(
    edit: Edit,
    players_len: usize,
    keys: EditorKeys,
    moving: bool,
    has_selection: bool,
    r: EditorStep,
)
    requires
        r == editor_step(edit, players_len, keys, moving, has_selection),
    ensures
        r.edit is Fighter && !moving ==> {
            &&& r.fighter.copy_frame == keys.v
            &&& r.fighter.paste_frame == keys.b
            &&& r.fighter.new_frame == keys.m
            &&& r.fighter.delete_frame == keys.n
            &&& r.fighter.start_move == (keys.a && has_selection)
            &&& r.fighter.delete_colboxes == keys.d
            &&& (r.fighter.add_colbox is Some) == keys.f
            &&& keys.f ==> r.fighter.add_colbox == Some(
                if keys.shift { LinkType::Simple } else { LinkType::MeldFirst },
            )
            &&& r.fighter.shrink_colboxes == keys.left_bracket
            &&& r.fighter.grow_colboxes == keys.right_bracket
            &&& r.fighter.send_to_front == keys.comma
            &&& r.fighter.send_to_back == keys.period
            &&& r.fighter.point_angles == keys.q
        },
        !(r.edit is Fighter && !moving) ==> {
            &&& !r.fighter.copy_frame && !r.fighter.paste_frame && !r.fighter.new_frame
            &&& !r.fighter.delete_frame && !r.fighter.start_move && !r.fighter.delete_colboxes
            &&& r.fighter.add_colbox is None
            &&& !r.fighter.shrink_colboxes && !r.fighter.grow_colboxes
            &&& !r.fighter.send_to_front && !r.fighter.send_to_back && !r.fighter.point_angles
        },
{
}

/// While the stage is edited and nothing is moved, each stage edit is asked
/// for exactly by its key: A starts a move of a selection, D deletes, Q, W,
/// E, R and F add a decorative surface, a ceiling, a wall, a floor and a
/// platform, Z and X add a spawn and a respawn point, S joins or splits.
/// Otherwise no stage edit is asked for.
pub proof fn law_stage_edit_keys(
    edit: Edit,
    players_len: usize,
    keys: EditorKeys,
    moving: bool,
    has_selection: bool,
    r: EditorStep,
)
    requires
        r == editor_step(edit, players_len, keys, moving, has_selection),
    ensures
        r.edit is Stage && !moving ==> {
            &&& r.stage.start_move == (keys.a && has_selection)
            &&& r.stage.delete == keys.d
            &&& r.stage.add_decorative == keys.q
            &&& r.stage.add_ceiling == keys.w
            &&& r.stage.add_wall == keys.e
            &&& r.stage.add_floor == keys.r
            &&& r.stage.add_platform == keys.f
            &&& r.stage.add_spawn == keys.z
            &&& r.stage.add_respawn == keys.x
            &&& r.stage.join_or_split == keys.s
        },
        !(r.edit is Stage && !moving) ==> {
            &&& !r.stage.start_move && !r.stage.delete && !r.stage.add_decorative
            &&& !r.stage.add_ceiling && !r.stage.add_wall && !r.stage.add_floor
            &&& !r.stage.add_platform && !r.stage.add_spawn && !r.stage.add_respawn
            &&& !r.stage.join_or_split
        },
{
}

/// The key of the stage chooses the stage; otherwise the first of the keys
/// 1 to 4 whose player plays chooses that player's fighter, or with shift the
/// player, and asks for the frame to be read again; with none of these what
/// is edited stays.
pub proof fn law_edit_choice_keys(
    edit: Edit,
    players_len: usize,
    keys: EditorKeys,
    moving: bool,
    has_selection: bool,
    r: EditorStep,
)
    requires
        r == editor_step(edit, players_len, keys, moving, has_selection),
    ensures
        keys.stage ==> r.edit == Edit::Stage && !r.frame_changed,
        !keys.stage ==> {
            let p: int = if keys.one && players_len >= 1 {
                0
            } else if keys.two && players_len >= 2 {
                1
            } else if keys.three && players_len >= 3 {
                2
            } else if keys.four && players_len >= 4 {
                3
            } else {
                -1
            };
            &&& p >= 0 ==> r.frame_changed && r.edit == if keys.shift {
                Edit::Player(p as usize)
            } else {
                Edit::Fighter(p as usize)
            }
            &&& p < 0 ==> !r.frame_changed && r.edit == edit
        },
{
}


/// The game moves on by the first flow key pressed, in the order J (a step
/// back), K (a step forward), H (play backwards), L (play forwards), space
/// (play one frame), U (remember the frame), I (nothing) and enter (resume);
/// with none of them it stays paused. The flow does not depend on what is
/// edited.
pub proof fn law_flow_keys(
    edit: Edit,
    players_len: usize,
    keys: EditorKeys,
    moving: bool,
    has_selection: bool,
    r: EditorStep,
)
    requires
        r == editor_step(edit, players_len, keys, moving, has_selection),
    ensures
        keys.j ==> r.flow == Flow::StepBackwards,
        !keys.j && keys.k ==> r.flow == Flow::StepForwards,
        !keys.j && !keys.k && keys.h ==> r.flow == Flow::PlayBackwards,
        !keys.j && !keys.k && !keys.h && keys.l ==> r.flow == Flow::PlayForwards,
        !keys.j && !keys.k && !keys.h && !keys.l && keys.space ==> r.flow == Flow::StepOnce,
        !keys.j && !keys.k && !keys.h && !keys.l && !keys.space && keys.u ==> r.flow == Flow::SaveFrame,
        !keys.j && !keys.k && !keys.h && !keys.l && !keys.space && !keys.u && !keys.i && keys.enter
            ==> r.flow == Flow::Resume,
        !keys.j && !keys.k && !keys.h && !keys.l && !keys.space && !keys.u && !keys.enter ==> r.flow
            == Flow::Stay,
        keys.i && !keys.j && !keys.k && !keys.h && !keys.l && !keys.space && !keys.u ==> r.flow == Flow::Stay,
{
}

} // verus!
