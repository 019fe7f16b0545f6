//! Menu cursors and the per-player state of the character select screen.

use vstd::prelude::*;
use crate::package::PackageMeta;

verus! {

/// How many frames a held direction waits before each successive move:
/// the first move is immediate, then the waits shorten until they stay at 5.
pub open spec fn tick_duration(i: usize) -> usize {
    if i == 0 {
        20
    } else if i == 1 {
        12
    } else if i == 2 {
        10
    } else if i == 3 {
        8
    } else if i == 4 {
        6
    } else {
        5
    }
}

/// The cursor one step up from `cursor`, wrapping from the top to `max`.
pub open spec fn cursor_up(cursor: usize, max: usize) -> usize {
    if cursor == 0 {
        max
    } else {
        (cursor - 1) as usize
    }
}

/// The cursor one step down from `cursor`, wrapping from `max` to the top.
pub open spec fn cursor_down(cursor: usize, max: usize) -> usize {
    if cursor == max {
        0
    } else {
        (cursor + 1) as usize
    }
}

/// A cursor over a list of items that moves while a direction is held,
/// faster the longer it is held.
#[derive(Clone, Copy, Debug)]
pub struct MenuTicker {
    cursor: usize,
    cursor_max: usize,
    ticks_remaining: usize,
    tick_duration_i: usize,
    reset: bool,
}

impl MenuTicker {
    /// The index of the item the cursor is on.
    pub closed spec fn pos(&self) -> usize {
        self.cursor
    }

    /// The index of the last item.
    pub closed spec fn max(&self) -> usize {
        self.cursor_max
    }

    /// Whether the next tick happens immediately.
    pub closed spec fn is_reset(&self) -> bool {
        self.reset
    }

    /// Frames left until the next tick, when not reset.
    pub closed spec fn remaining(&self) -> usize {
        self.ticks_remaining
    }

    /// How far the held direction has sped up.
    pub closed spec fn speed(&self) -> usize {
        self.tick_duration_i
    }

    /// The cursor is on an item and a held ticker is waiting for a tick.
    pub closed spec fn wf(&self) -> bool {
        &&& self.cursor <= self.cursor_max
        &&& self.tick_duration_i <= 5
        &&& !self.reset ==> self.ticks_remaining >= 1
        &&& self.ticks_remaining <= 20
    }

    /// A released ticker over `item_count` items, on the first item.
    pub closed spec fn fresh(item_count: usize) -> MenuTicker {
        MenuTicker {
            cursor: 0,
            cursor_max: if item_count > 0 {
                (item_count - 1) as usize
            } else {
                0
            },
            ticks_remaining: 0,
            tick_duration_i: 0,
            reset: true,
        }
    }

    /// Whether holding a direction for a frame makes the cursor move.
    pub closed spec fn fires(self) -> bool {
        self.reset || self.ticks_remaining == 1
    }

    /// The ticker after a direction was held for a frame.
    pub closed spec fn ticked(self) -> MenuTicker {
        if self.reset {
            MenuTicker { ticks_remaining: 20, tick_duration_i: 0, reset: false, ..self }
        } else if self.ticks_remaining == 1 {
            MenuTicker {
                ticks_remaining: tick_duration(self.tick_duration_i),
                tick_duration_i: if self.tick_duration_i < 5 {
                    (self.tick_duration_i + 1) as usize
                } else {
                    self.tick_duration_i
                },
                ..self
            }
        } else {
            MenuTicker { ticks_remaining: (self.ticks_remaining - 1) as usize, ..self }
        }
    }

    /// The ticker after up was held for a frame.
    pub closed spec fn held_up(self) -> MenuTicker {
        let t = self.ticked();
        if self.fires() {
            MenuTicker { cursor: cursor_up(self.cursor, self.cursor_max), ..t }
        } else {
            t
        }
    }

    /// The ticker after down was held for a frame.
    pub closed spec fn held_down(self) -> MenuTicker {
        let t = self.ticked();
        if self.fires() {
            MenuTicker { cursor: cursor_down(self.cursor, self.cursor_max), ..t }
        } else {
            t
        }
    }

    /// The ticker after no direction was held.
    pub closed spec fn released(self) -> MenuTicker {
        MenuTicker { reset: true, ..self }
    }

    /// The ticker released and back on the first item.
    pub closed spec fn cleared(self) -> MenuTicker {
        MenuTicker { reset: true, cursor: 0, ..self }
    }

    /// The ticker after a frame of input: up wins over down, and neither
    /// releases it.
    pub open spec fn stepped(self, up: bool, down: bool) -> MenuTicker {
        if up {
            self.held_up()
        } else if down {
            self.held_down()
        } else {
            self.released()
        }
    }

    /// Every ticker step keeps a well formed ticker well formed and its
    /// cursor range unchanged.
    pub proof fn lemma_steps_keep_wf(self)
        requires
            self.wf(),
        ensures
            self.ticked().wf(),
            self.held_up().wf(),
            self.held_down().wf(),
            self.released().wf(),
            self.cleared().wf(),
            self.ticked().max() == self.max(),
            self.held_up().max() == self.max(),
            self.held_down().max() == self.max(),
            self.released().max() == self.max(),
            self.cleared().max() == self.max(),
            self.cleared().pos() == 0,
            self.held_up().pos() <= self.max(),
            self.held_down().pos() <= self.max(),
            self.released().pos() == self.pos(),
    {
    }

    /// A ticker over `item_count` items, on the first item.
    pub fn new(item_count: usize) -> (t: MenuTicker)
        ensures
            t == MenuTicker::fresh(item_count),
            t.wf(),
            t.pos() == 0,
            t.max() == if item_count > 0 {
                (item_count - 1) as usize
            } else {
                0
            },
            t.is_reset(),
    {
        MenuTicker {
            cursor: 0,
            cursor_max: if item_count > 0 {
                item_count - 1
            } else {
                0
            },
            ticks_remaining: 0,
            tick_duration_i: 0,
            reset: true,
        }
    }

    /// The index of the item the cursor is on.
    pub fn position(&self) -> (c: usize)
        ensures
            c == self.pos(),
    {
        self.cursor
    }

    /// Advances the held direction by a frame and returns whether the cursor
    /// should move on this frame.
    pub fn tick(&mut self) -> (r: bool)
        requires
            old(self).wf(),
        ensures
            *final(self) == old(self).ticked(),
            r == old(self).fires(),
            final(self).wf(),
            final(self).pos() == old(self).pos(),
            final(self).max() == old(self).max(),
            !final(self).is_reset(),
            old(self).is_reset() ==> r && final(self).remaining() == tick_duration(0)
                && final(self).speed() == 0,
            !old(self).is_reset() ==> (r <==> old(self).remaining() == 1),
            !old(self).is_reset() && old(self).remaining() == 1 ==> final(self).remaining()
                == tick_duration(old(self).speed()) && final(self).speed() == if old(self).speed()
                < 5 {
                (old(self).speed() + 1) as usize
            } else {
                old(self).speed()
            },
            !old(self).is_reset() && old(self).remaining() > 1 ==> final(self).remaining() == old(
                self,
            ).remaining() - 1 && final(self).speed() == old(self).speed(),
    {
        let tick_durations: [usize; 6] = [20, 12, 10, 8, 6, 5];
        if self.reset {
            self.ticks_remaining = tick_durations[0];
            self.tick_duration_i = 0;
            self.reset = false;
            true
        } else {
            self.ticks_remaining = self.ticks_remaining - 1;
            if self.ticks_remaining == 0 {
                self.ticks_remaining = tick_durations[self.tick_duration_i];
                if self.tick_duration_i < tick_durations.len() - 1 {
                    self.tick_duration_i = self.tick_duration_i + 1;
                }
                true
            } else {
                false
            }
        }
    }

    /// Holds up for a frame: on a tick the cursor moves up, wrapping to the bottom.
    pub fn up(&mut self) -> (moved: bool)
        requires
            old(self).wf(),
        ensures
            *final(self) == old(self).held_up(),
            moved == old(self).fires(),
            final(self).wf(),
            final(self).max() == old(self).max(),
            moved == (old(self).is_reset() || old(self).remaining() == 1),
            final(self).pos() == if moved {
                cursor_up(old(self).pos(), old(self).max())
            } else {
                old(self).pos()
            },
    {
        let moved = self.tick();
        if moved {
            if self.cursor == 0 {
                self.cursor = self.cursor_max;
            } else {
                self.cursor = self.cursor - 1;
            }
        }
        moved
    }

    /// Holds down for a frame: on a tick the cursor moves down, wrapping to the top.
    pub fn down(&mut self) -> (moved: bool)
        requires
            old(self).wf(),
        ensures
            *final(self) == old(self).held_down(),
            moved == old(self).fires(),
            final(self).wf(),
            final(self).max() == old(self).max(),
            moved == (old(self).is_reset() || old(self).remaining() == 1),
            final(self).pos() == if moved {
                cursor_down(old(self).pos(), old(self).max())
            } else {
                old(self).pos()
            },
    {
        let moved = self.tick();
        if moved {
            if self.cursor == self.cursor_max {
                self.cursor = 0;
            } else {
                self.cursor = self.cursor + 1;
            }
        }
        moved
    }

    /// Releases the held direction: the next tick happens immediately.
    pub fn reset(&mut self)
        requires
            old(self).wf(),
        ensures
            *final(self) == old(self).released(),
            final(self).wf(),
            final(self).is_reset(),
            final(self).pos() == old(self).pos(),
            final(self).max() == old(self).max(),
    {
        self.reset = true;
    }
}

impl MenuTicker {
    /// Releases the ticker and puts the cursor on the first item.
    pub fn full_reset(&mut self)
        requires
            old(self).wf(),
        ensures
            *final(self) == old(self).cleared(),
            final(self).wf(),
            final(self).is_reset(),
            final(self).pos() == 0,
            final(self).max() == old(self).max(),
    {
        self.reset();
        self.cursor = 0;
    }
}

/// Moving the cursor down undoes moving it up, and the other way round.
pub proof fn law_cursor_up_down_inverse(cursor: usize, max: usize)
    requires
        cursor <= max,
    ensures
        cursor_down(cursor_up(cursor, max), max) == cursor,
        cursor_up(cursor_down(cursor, max), max) == cursor,
        cursor_up(cursor, max) <= max,
        cursor_down(cursor, max) <= max,
{
}

/// A released ticker moves on the first held frame and then waits
/// 20, 12, 10, 8, 6 and from then on 5 frames between moves.
pub proof fn law_tick_first_then_waits(t: MenuTicker)
    requires
        t.wf(),
        t.is_reset(),
    ensures
        tick_duration(0) == 20 && tick_duration(1) == 12 && tick_duration(2) == 10
            && tick_duration(3) == 8 && tick_duration(4) == 6 && tick_duration(5) == 5,
        forall|i: usize| i >= 5 ==> #[trigger] tick_duration(i) == 5,
{
}

/// The ticker after a direction was held for `n` frames.
pub open spec fn ticked_n(t: MenuTicker, n: nat) -> MenuTicker
    decreases n,
{
    if n == 0 {
        t
    } else {
        ticked_n(t, (n - 1) as nat).ticked()
    }
}

proof fn lemma_countdown(t: MenuTicker, k: nat)
    requires
        t.wf(),
        !t.is_reset(),
        k < t.remaining(),
    ensures
        !ticked_n(t, k).is_reset(),
        ticked_n(t, k).remaining() == t.remaining() - k,
    decreases k,
{
    if k > 0 {
        lemma_countdown(t, (k - 1) as nat);
    }
}

/// A held direction moves the cursor at least once in every 20 frames:
/// from any ticker, one of the next 20 ticks fires.
pub proof fn law_held_direction_moves_within_20_frames(t: MenuTicker)
    requires
        t.wf(),
    ensures
        exists|k: nat| k < 20 && #[trigger] ticked_n(t, k).fires(),
{
    if t.is_reset() {
        assert(ticked_n(t, 0).fires());
    } else {
        let k = (t.remaining() - 1) as nat;
        lemma_countdown(t, k);
        assert(ticked_n(t, k).fires());
    }
}

/// The cursor mode of one player's slot on the character select screen.
#[derive(Clone, Copy, Debug)]
pub enum PlayerSelectUi {
    CpuAi(MenuTicker),
    CpuFighter(MenuTicker),
    CpuTeam(MenuTicker),
    HumanFighter(MenuTicker),
    HumanTeam(MenuTicker),
    HumanUnplugged,
}

/// The number of team colors.
pub fn team_color_count() -> (n: usize)
    ensures
        n == 8,
{
    8
}

impl PlayerSelectUi {
    /// The ticker of the slot, if it has one.
    pub open spec fn spec_ticker(self) -> Option<MenuTicker> {
        match self {
            PlayerSelectUi::CpuAi(t) => Some(t),
            PlayerSelectUi::CpuFighter(t) => Some(t),
            PlayerSelectUi::CpuTeam(t) => Some(t),
            PlayerSelectUi::HumanFighter(t) => Some(t),
            PlayerSelectUi::HumanTeam(t) => Some(t),
            PlayerSelectUi::HumanUnplugged => None,
        }
    }

    /// The slot's ticker is well formed, where there is one.
    pub open spec fn wf(self) -> bool {
        self.spec_ticker() matches Some(t) ==> t.wf()
    }

    /// The slot with its ticker replaced by `t`.
    pub open spec fn with_ticker(self, t: MenuTicker) -> Self {
        match self {
            PlayerSelectUi::CpuAi(_) => PlayerSelectUi::CpuAi(t),
            PlayerSelectUi::CpuFighter(_) => PlayerSelectUi::CpuFighter(t),
            PlayerSelectUi::CpuTeam(_) => PlayerSelectUi::CpuTeam(t),
            PlayerSelectUi::HumanFighter(_) => PlayerSelectUi::HumanFighter(t),
            PlayerSelectUi::HumanTeam(_) => PlayerSelectUi::HumanTeam(t),
            PlayerSelectUi::HumanUnplugged => PlayerSelectUi::HumanUnplugged,
        }
    }

    /// The slot with its cursor back on the first item and released.
    pub open spec fn cleared(self) -> Self {
        match self.spec_ticker() {
            Some(t) => self.with_ticker(t.cleared()),
            None => self,
        }
    }

    /// The slot after a frame of up/down input on its cursor.
    pub open spec fn stepped(self, up: bool, down: bool) -> Self {
        match self.spec_ticker() {
            Some(t) => self.with_ticker(t.stepped(up, down)),
            None => self,
        }
    }

    /// A human fighter cursor for `fighter_count` fighters.
    pub open spec fn spec_human_fighter(fighter_count: usize) -> Self {
        PlayerSelectUi::HumanFighter(MenuTicker::fresh((fighter_count + 2) as usize))
    }

    /// A CPU fighter cursor for `fighter_count` fighters.
    pub open spec fn spec_cpu_fighter(fighter_count: usize) -> Self {
        PlayerSelectUi::CpuFighter(MenuTicker::fresh((fighter_count + 3) as usize))
    }

    pub fn cpu_ai() -> (ui: Self)
        ensures
            ui == PlayerSelectUi::CpuAi(MenuTicker::fresh(1)),
            ui matches PlayerSelectUi::CpuAi(t) && t.pos() == 0 && t.max() == 0 && t.wf()
                && t.is_reset(),
    {
        PlayerSelectUi::CpuAi(MenuTicker::new(1))
    }

    /// A CPU fighter cursor over the fighters and three more options
    /// (team, AI, remove).
    pub fn cpu_fighter(fighter_count: usize) -> (ui: Self)
        requires
            fighter_count + 3 <= usize::MAX,
        ensures
            ui == Self::spec_cpu_fighter(fighter_count),
            ui matches PlayerSelectUi::CpuFighter(t) && t.pos() == 0 && t.max() == fighter_count
                + 2 && t.wf() && t.is_reset(),
    {
        PlayerSelectUi::CpuFighter(MenuTicker::new(fighter_count + 3))
    }

    /// A human fighter cursor over the fighters and two more options (team, add CPU).
    pub fn human_fighter(fighter_count: usize) -> (ui: Self)
        requires
            fighter_count + 2 <= usize::MAX,
        ensures
            ui == Self::spec_human_fighter(fighter_count),
            ui matches PlayerSelectUi::HumanFighter(t) && t.pos() == 0 && t.max()
                == fighter_count + 1 && t.wf() && t.is_reset(),
    {
        PlayerSelectUi::HumanFighter(MenuTicker::new(fighter_count + 2))
    }

    /// A CPU team cursor over the team colors and a back option.
    pub fn cpu_team() -> (ui: Self)
        ensures
            ui == PlayerSelectUi::CpuTeam(MenuTicker::fresh(9)),
            ui matches PlayerSelectUi::CpuTeam(t) && t.pos() == 0 && t.max() == 8 && t.wf()
                && t.is_reset(),
    {
        PlayerSelectUi::CpuTeam(MenuTicker::new(team_color_count() + 1))
    }

    /// A human team cursor over the team colors and a back option.
    pub fn human_team() -> (ui: Self)
        ensures
            ui == PlayerSelectUi::HumanTeam(MenuTicker::fresh(9)),
            ui matches PlayerSelectUi::HumanTeam(t) && t.pos() == 0 && t.max() == 8 && t.wf()
                && t.is_reset(),
    {
        PlayerSelectUi::HumanTeam(MenuTicker::new(team_color_count() + 1))
    }

    pub open spec fn spec_is_visible(self) -> bool {
        !(self is HumanUnplugged)
    }

    pub open spec fn spec_is_cpu(self) -> bool {
        self is CpuAi || self is CpuFighter || self is CpuTeam
    }

    pub open spec fn spec_is_human_plugged_in(self) -> bool {
        self is HumanFighter || self is HumanTeam
    }

    pub fn is_visible(&self) -> (r: bool)
        ensures
            r == self.spec_is_visible(),
    {
        match self {
            PlayerSelectUi::HumanUnplugged => false,
            _ => true,
        }
    }

    pub fn is_cpu(&self) -> (r: bool)
        ensures
            r == self.spec_is_cpu(),
    {
        match self {
            PlayerSelectUi::CpuAi(_) | PlayerSelectUi::CpuFighter(_) | PlayerSelectUi::CpuTeam(
                _,
            ) => true,
            _ => false,
        }
    }

    pub fn is_human_plugged_in(&self) -> (r: bool)
        ensures
            r == self.spec_is_human_plugged_in(),
    {
        match self {
            PlayerSelectUi::HumanFighter(_) | PlayerSelectUi::HumanTeam(_) => true,
            _ => false,
        }
    }

    /// The slot's ticker; an unplugged human slot has none.
    pub fn ticker_unwrap(&self) -> (t: &MenuTicker)
        requires
            self.spec_is_visible(),
        ensures
            self.spec_ticker() == Some(*t),
    {
        match self {
            PlayerSelectUi::HumanFighter(ticker)
            | PlayerSelectUi::CpuFighter(ticker)
            | PlayerSelectUi::HumanTeam(ticker)
            | PlayerSelectUi::CpuTeam(ticker)
            | PlayerSelectUi::CpuAi(ticker) => ticker,
            PlayerSelectUi::HumanUnplugged => vstd::pervasive::unreached(),
        }
    }

    /// Puts the slot's cursor back on the first item and releases it.
    pub fn ticker_full_reset(&mut self)
        requires
            old(self).wf(),
        ensures
            *final(self) == old(self).cleared(),
            final(self).wf(),
            *old(self) is HumanUnplugged ==> *final(self) is HumanUnplugged,
            *old(self) is CpuAi <==> *final(self) is CpuAi,
            *old(self) is CpuFighter <==> *final(self) is CpuFighter,
            *old(self) is CpuTeam <==> *final(self) is CpuTeam,
            *old(self) is HumanFighter <==> *final(self) is HumanFighter,
            *old(self) is HumanTeam <==> *final(self) is HumanTeam,
            final(self).spec_ticker() matches Some(t) ==> t.pos() == 0 && t.is_reset() && t.max()
                == old(self).spec_ticker().unwrap().max(),
    {
        match self {
            PlayerSelectUi::HumanFighter(ticker) => ticker.full_reset(),
            PlayerSelectUi::CpuFighter(ticker) => ticker.full_reset(),
            PlayerSelectUi::HumanTeam(ticker) => ticker.full_reset(),
            PlayerSelectUi::CpuTeam(ticker) => ticker.full_reset(),
            PlayerSelectUi::CpuAi(ticker) => ticker.full_reset(),
            PlayerSelectUi::HumanUnplugged => {},
        }
    }
}

/// One player slot on the character select screen.
#[derive(Clone, Copy, Debug)]
pub struct PlayerSelect {
    /// the controller operating this slot (the cursor of the ticker is ignored)
    pub controller: Option<(usize, MenuTicker)>,
    pub fighter: Option<usize>,
    pub cpu_ai: Option<usize>,
    pub team: usize,
    pub ui: PlayerSelectUi,
    pub animation_frame: usize,
}

impl PlayerSelect {
    /// Returns true iff a controller can move to this selection.
    pub fn is_free(&self) -> (r: bool)
        ensures
            r == (self.ui.spec_is_cpu() && self.controller is None),
    {
        self.ui.is_cpu() && self.controller.is_none()
    }
}

/// Whether a visible slot already uses `team`.
pub open spec fn team_taken(selections: Seq<PlayerSelect>, team: usize) -> bool {
    exists|i: int|
        0 <= i < selections.len() && (#[trigger] selections[i]).ui.spec_is_visible()
            && selections[i].team == team
}

/// The teams used by visible slots, as integers; invisible slots contribute -1.
pub open spec fn used_teams(selections: Seq<PlayerSelect>) -> Set<int> {
    selections.map_values(
        |s: PlayerSelect|
            if s.ui.spec_is_visible() {
                s.team as int
            } else {
                -1
            },
    ).to_set()
}

fn team_is_taken(selections: &[PlayerSelect], team: usize) -> (r: bool)
    ensures
        r == team_taken(selections@, team),
{
    let mut i: usize = 0;
    while i < selections.len()
        invariant
            0 <= i <= selections@.len(),
            forall|j: int|
                0 <= j < i ==> !((#[trigger] selections@[j]).ui.spec_is_visible()
                    && selections@[j].team == team),
        decreases selections@.len() - i,
    {
        if selections[i].ui.is_visible() && selections[i].team == team {
            return true;
        }
        i = i + 1;
    }
    false
}

/// The lowest team that no visible slot uses.
pub fn get_free_team(selections: &[PlayerSelect]) -> (team: usize)
    ensures
        !team_taken(selections@, team),
        forall|t: usize| t < team ==> team_taken(selections@, t),
        team <= selections@.len(),
{
    let ghost used = used_teams(selections@);
    proof {
        selections@.map_values(
            |s: PlayerSelect|
                if s.ui.spec_is_visible() {
                    s.team as int
                } else {
                    -1
                },
        ).lemma_cardinality_of_set();
    }
    let n = selections.len();
    let mut team: usize = 0;
    while team_is_taken(selections, team)
        invariant
            n == selections@.len(),
            forall|t: usize| t < team ==> team_taken(selections@, t),
            team <= selections@.len(),
            used == used_teams(selections@),
            used.finite(),
            used.len() <= selections@.len(),
        decreases selections@.len() - team,
    {
        proof {
            // every team up to and including this one is used, so there are
            // more used teams than slots unless `team` is below the slot count
            let range = vstd::set_lib::set_int_range(0, team + 1);
            vstd::set_lib::lemma_int_range(0, team + 1);
            assert forall|x: int| range.contains(x) implies used.contains(x) by {
                let t = x as usize;
                assert(team_taken(selections@, t));
                let i = choose|i: int|
                    0 <= i < selections@.len() && (#[trigger] selections@[i]).ui.spec_is_visible()
                        && selections@[i].team == t;
                let m = selections@.map_values(
                    |s: PlayerSelect|
                        if s.ui.spec_is_visible() {
                            s.team as int
                        } else {
                            -1
                        },
                );
                assert(m[i] == x);
                assert(m.contains(x));
            }
            vstd::set_lib::lemma_len_subset(range, used);
            assert(range.len() == team + 1);
            assert(team + 1 <= selections@.len());
        }
        team = team + 1;
    }
    team
}

/// The screen the menu shows.
pub enum MenuState {
    GameSelect,
    /// The replays to choose from and the cursor over them.
    ReplaySelect(Vec<String>, MenuTicker),
    CharacterSelect { back_counter: usize },
    StageSelect,
    GameResults { replay_saved: bool },
    /// The packages to choose from (directory name and metadata) and the
    /// cursor over them.
    PackageSelect(Vec<(String, PackageMeta)>, MenuTicker),
    NetplayWait { message: String },
}

impl MenuState {
    /// The package selection screen over `packages`, on the first package.
    pub fn package_select(packages: Vec<(String, PackageMeta)>) -> (m: MenuState)
        ensures
            m matches MenuState::PackageSelect(p, t) && p@ == packages@ && t.wf() && t.pos() == 0
                && t.is_reset() && t.max() == (if packages@.len() > 0 {
                packages@.len() - 1
            } else {
                0
            }),
    {
        let ticker = MenuTicker::new(packages.len());
        MenuState::PackageSelect(packages, ticker)
    }

    /// The replay selection screen over `replays`, on the first replay.
    pub fn replay_select(replays: Vec<String>) -> (m: MenuState)
        ensures
            m matches MenuState::ReplaySelect(r, t) && r@ == replays@ && t.wf() && t.pos() == 0
                && t.is_reset() && t.max() == (if replays@.len() > 0 {
                replays@.len() - 1
            } else {
                0
            }),
    {
        let ticker = MenuTicker::new(replays.len());
        MenuState::ReplaySelect(replays, ticker)
    }

    /// The character selection screen, with nothing held to go back.
    pub fn character_select() -> (m: MenuState)
        ensures
            m matches MenuState::CharacterSelect { back_counter } && back_counter == 0,
    {
        MenuState::CharacterSelect { back_counter: 0 }
    }

    /// The results screen of a game whose replay is not saved yet.
    pub fn game_results() -> (m: MenuState)
        ensures
            m matches MenuState::GameResults { replay_saved } && !replay_saved,
    {
        MenuState::GameResults { replay_saved: false }
    }
}

/// The menu as it was on an earlier netplay frame, to return to when a
/// peer's late inputs change what happened since.
pub struct NetplayHistory {
    pub state: MenuState,
    pub prev_state: Option<MenuState>,
    pub fighter_selections: Vec<PlayerSelect>,
    pub stage_ticker: Option<MenuTicker>,
}

} // verus!
