//! One frame of the character select screen: slots follow the controllers
//! that are plugged in, cursors move between slots, choices are made, CPU
//! players come and go, and the screen is left for the stage select or,
//! when back is held long enough, for the game select.
//!
//! Wherever the screen's rules would index out of range or reach a state
//! they do not handle, the step gives `None` and changes nothing that the
//! caller keeps.

use vstd::prelude::*;
use crate::menu::{get_free_team, team_color_count, team_taken, MenuTicker, PlayerSelect, PlayerSelectUi};

verus! {

/// One controller's menu input this frame. A direction counts when its
/// button is held or the stick is pushed far enough that way.
#[derive(Clone, Copy, Debug, PartialEq, Eq, Structural)]
pub struct MenuInput {
    pub plugged_in: bool,
    pub left: bool,
    pub right: bool,
    pub up: bool,
    pub down: bool,
    pub a_press: bool,
    pub b_press: bool,
    pub b_held: bool,
    pub start_press: bool,
    pub l_press: bool,
    pub r_press: bool,
}

/// Where the menu goes after a frame of the character select screen.
#[derive(Clone, Copy, Debug, PartialEq, Eq, Structural)]
pub enum SelectOutcome {
    Stay,
    /// To the stage select screen.
    StageSelect,
    /// Back to the game select screen; the netplay session goes offline.
    GameSelect,
}

/// The number of slots that do not belong to CPU players.
pub open spec fn count_humans(s: Seq<PlayerSelect>) -> nat
    decreases s.len(),
{
    if s.len() == 0 {
        0
    } else {
        count_humans(s.drop_last()) + if s.last().ui.spec_is_cpu() {
            0nat
        } else {
            1nat
        }
    }
}

/// The number of visible slots.
pub open spec fn count_visible(s: Seq<PlayerSelect>) -> nat
    decreases s.len(),
{
    if s.len() == 0 {
        0
    } else {
        count_visible(s.drop_last()) + if s.last().ui.spec_is_visible() {
            1nat
        } else {
            0nat
        }
    }
}

/// The lowest team that no visible slot uses.
pub open spec fn least_free_team(s: Seq<PlayerSelect>) -> usize {
    choose|t: usize| !team_taken(s, t) && forall|u: usize| u < t ==> team_taken(s, u)
}

/// The slot of controller `i` when the slots are set up anew.
pub open spec fn new_human_slot(i: usize, plugged_in: bool, fighter_count: usize, team: usize) -> PlayerSelect {
    PlayerSelect {
        controller: Some((i, MenuTicker::fresh(1))),
        fighter: None,
        cpu_ai: None,
        team,
        ui: if plugged_in {
            PlayerSelectUi::spec_human_fighter(fighter_count)
        } else {
            PlayerSelectUi::HumanUnplugged
        },
        animation_frame: 0,
    }
}

/// The slots of the first `n` controllers, set up anew.
pub open spec fn rebuilt(inputs: Seq<MenuInput>, n: nat, fighter_count: usize) -> Seq<PlayerSelect>
    decreases n,
{
    if n == 0 {
        seq![]
    } else {
        let p = rebuilt(inputs, (n - 1) as nat, fighter_count);
        p.push(
            new_human_slot((n - 1) as usize, inputs[n - 1].plugged_in, fighter_count, least_free_team(p)),
        )
    }
}

/// The slots once they match the controllers: when the number of human
/// slots differs from the number of controllers, every slot is set up anew.
pub open spec fn after_rebuild(s: Seq<PlayerSelect>, inputs: Seq<MenuInput>, fighter_count: usize) -> Seq<
    PlayerSelect,
> {
    if count_humans(s) != inputs.len() {
        rebuilt(inputs, inputs.len(), fighter_count)
    } else {
        s
    }
}

/// Whether the selected fighters of `s` can be animated: their keys are
/// fighters, whose select screen action has frames.
pub open spec fn animate_ok(s: Seq<PlayerSelect>, css_frames: Seq<Option<usize>>) -> bool {
    forall|i: int|
        0 <= i < s.len() ==> match (#[trigger] s[i]).fighter {
            Some(k) => k < css_frames.len() && match css_frames[k as int] {
                Some(n) => n > 0 && s[i].animation_frame < usize::MAX,
                None => true,
            },
            None => true,
        }
}

/// A slot with its fighter's select screen animation advanced a frame.
pub open spec fn animated_slot(x: PlayerSelect, css_frames: Seq<Option<usize>>) -> PlayerSelect {
    match x.fighter {
        Some(k) => match css_frames[k as int] {
            Some(n) => PlayerSelect { animation_frame: ((x.animation_frame + 1) % (n as int)) as usize, ..x },
            None => x,
        },
        None => x,
    }
}

proof fn lemma_count_humans_le(s: Seq<PlayerSelect>)
    ensures
        count_humans(s) <= s.len(),
    decreases s.len(),
{
    if s.len() > 0 {
        lemma_count_humans_le(s.drop_last());
    }
}

proof fn lemma_least_free_team(s: Seq<PlayerSelect>, t: usize)
    requires
        !team_taken(s, t),
        forall|u: usize| u < t ==> team_taken(s, u),
    ensures
        least_free_team(s) == t,
{
    let c = least_free_team(s);
    assert(!team_taken(s, c) && forall|u: usize| u < c ==> team_taken(s, u));
    if c < t {
        assert(team_taken(s, c));
    }
    if t < c {
        assert(team_taken(s, t));
    }
}

fn count_humans_exec(s: &Vec<PlayerSelect>) -> (n: usize)
    ensures
        n == count_humans(s@),
{
    let mut n: usize = 0;
    let mut i: usize = 0;
    while i < s.len()
        invariant
            i <= s@.len(),
            n == count_humans(s@.take(i as int)),
            n <= i,
        decreases s@.len() - i,
    {
        assert(s@.take(i + 1).drop_last() =~= s@.take(i as int));
        if !s[i].ui.is_cpu() {
            n = n + 1;
        }
        i = i + 1;
    }
    assert(s@.take(s@.len() as int) =~= s@);
    n
}

fn free_team(s: &Vec<PlayerSelect>) -> (t: usize)
    ensures
        t == least_free_team(s@),
{
    let t = get_free_team(s.as_slice());
    proof {
        lemma_least_free_team(s@, t);
    }
    t
}

/// Sets the slots up anew when they do not match the controllers.
fn rebuild(s: &mut Vec<PlayerSelect>, inputs: &[MenuInput], fighter_count: usize)
    requires
        fighter_count + 3 <= usize::MAX,
        slots_wf(old(s)@),
    ensures
        final(s)@ == after_rebuild(old(s)@, inputs@, fighter_count),
        slots_wf(final(s)@),
        inputs@.len() <= final(s)@.len(),
{
    proof {
        lemma_count_humans_le(s@);
    }
    if count_humans_exec(s) != inputs.len() {
        let mut built: Vec<PlayerSelect> = Vec::new();
        let mut i: usize = 0;
        while i < inputs.len()
            invariant
                i <= inputs@.len(),
                fighter_count + 3 <= usize::MAX,
                built@ == rebuilt(inputs@, i as nat, fighter_count),
                built@.len() == i,
                slots_wf(built@),
            decreases inputs@.len() - i,
        {
            let ui = if inputs[i].plugged_in {
                PlayerSelectUi::human_fighter(fighter_count)
            } else {
                PlayerSelectUi::HumanUnplugged
            };
            let team = free_team(&built);
            built.push(
                PlayerSelect {
                    controller: Some((i, MenuTicker::new(1))),
                    fighter: None,
                    cpu_ai: None,
                    team,
                    ui,
                    animation_frame: 0,
                },
            );
            i = i + 1;
        }
        *s = built;
    }
}

/// Advances the select screen animation of every slot with a fighter;
/// `false` when a slot's fighter cannot be animated (see `animate_ok`).
fn animate(s: &mut Vec<PlayerSelect>, css_frames: &[Option<usize>]) -> (ok: bool)
    requires
        slots_wf(old(s)@),
    ensures
        ok == animate_ok(old(s)@, css_frames@),
        ok ==> final(s)@ == old(s)@.map_values(|x: PlayerSelect| animated_slot(x, css_frames@)),
        ok ==> slots_wf(final(s)@),
{
    let ghost s0 = s@;
    let mut i: usize = 0;
    while i < s.len()
        invariant
            s0 == old(s)@,
            i <= s@.len(),
            s@.len() == s0.len(),
            forall|j: int| 0 <= j < i ==> #[trigger] s@[j] == animated_slot(s0[j], css_frames@),
            forall|j: int| i <= j < s@.len() ==> #[trigger] s@[j] == s0[j],
            forall|j: int|
                0 <= j < i ==> match (#[trigger] s0[j]).fighter {
                    Some(k) => k < css_frames@.len() && match css_frames@[k as int] {
                        Some(n) => n > 0 && s0[j].animation_frame < usize::MAX,
                        None => true,
                    },
                    None => true,
                },
        decreases s@.len() - i,
    {
        let x = s[i];
        if let Some(k) = x.fighter {
            if k >= css_frames.len() {
                assert(s0[i as int] == x);
                return false;
            }
            if let Some(n) = css_frames[k] {
                if n == 0 || x.animation_frame == usize::MAX {
                    assert(s0[i as int] == x);
                    return false;
                }
                s.set(i, PlayerSelect { animation_frame: (x.animation_frame + 1) % n, ..x });
            }
        }
        i = i + 1;
    }
    assert(s@ =~= s0.map_values(|x: PlayerSelect| animated_slot(x, css_frames@)));
    assert(slots_wf(s@)) by {
        assert forall|q: int| 0 <= q < s@.len() implies (#[trigger] s@[q]).ui.wf() && match s@[q].controller {
            Some(pp) => pp.1.wf(),
            None => true,
        } by {
            assert(s0[q].ui.wf());
        }
    }
    true
}

/// Whether slot `x` is operated by controller `c`.
pub open spec fn held_by(x: PlayerSelect, c: usize) -> bool {
    match x.controller {
        Some(p) => p.0 == c,
        None => false,
    }
}

/// The slots with controller `c` taken off every slot it operates.
pub open spec fn released_controller(s: Seq<PlayerSelect>, c: usize) -> Seq<PlayerSelect> {
    s.map_values(
        |x: PlayerSelect|
            if held_by(x, c) {
                PlayerSelect { controller: None, ..x }
            } else {
                x
            },
    )
}

/// The slots after controller `i`'s plug state is looked at: an unplugged
/// slot whose controller is now plugged in comes back with a fresh fighter
/// cursor and a free team; a human fighter slot whose controller is
/// unplugged is hidden and its controller taken off every slot.
pub open spec fn plug_one(s: Seq<PlayerSelect>, i: usize, input: MenuInput, fighter_count: usize) -> Seq<
    PlayerSelect,
> {
    let free = least_free_team(s);
    if input.plugged_in {
        if s[i as int].ui is HumanUnplugged {
            s.update(
                i as int,
                PlayerSelect {
                    ui: PlayerSelectUi::spec_human_fighter(fighter_count),
                    team: free,
                    controller: Some((i, MenuTicker::fresh(1))),
                    ..s[i as int]
                },
            )
        } else {
            s
        }
    } else if s[i as int].ui is HumanFighter {
        released_controller(
            s.update(i as int, PlayerSelect { ui: PlayerSelectUi::HumanUnplugged, ..s[i as int] }),
            i,
        )
    } else {
        s
    }
}

/// The slots after the plug state of the first `n` controllers is looked at.
pub open spec fn plugged(s: Seq<PlayerSelect>, inputs: Seq<MenuInput>, n: nat, fighter_count: usize) -> Seq<
    PlayerSelect,
>
    decreases n,
{
    if n == 0 {
        s
    } else {
        plug_one(
            plugged(s, inputs, (n - 1) as nat, fighter_count),
            (n - 1) as usize,
            inputs[n - 1],
            fighter_count,
        )
    }
}

/// Every slot's tickers are well formed.
pub open spec fn slots_wf(s: Seq<PlayerSelect>) -> bool {
    forall|i: int|
        0 <= i < s.len() ==> (#[trigger] s[i]).ui.wf() && match s[i].controller {
            Some(p) => p.1.wf(),
            None => true,
        }
}

fn plug(s: &mut Vec<PlayerSelect>, inputs: &[MenuInput], fighter_count: usize)
    requires
        inputs@.len() <= old(s)@.len(),
        fighter_count + 3 <= usize::MAX,
        slots_wf(old(s)@),
    ensures
        final(s)@ == plugged(old(s)@, inputs@, inputs@.len() as nat, fighter_count),
        slots_wf(final(s)@),
{
    let mut i: usize = 0;
    while i < inputs.len()
        invariant
            i <= inputs@.len(),
            inputs@.len() <= s@.len(),
            fighter_count + 3 <= usize::MAX,
            s@ == plugged(old(s)@, inputs@, i as nat, fighter_count),
            slots_wf(s@),
        decreases inputs@.len() - i,
    {
        let ghost before = s@;
        let free = free_team(s);
        let x = s[i];
        if inputs[i].plugged_in {
            if let PlayerSelectUi::HumanUnplugged = x.ui {
                s.set(
                    i,
                    PlayerSelect {
                        ui: PlayerSelectUi::human_fighter(fighter_count),
                        team: free,
                        controller: Some((i, MenuTicker::new(1))),
                        ..x
                    },
                );
            }
        } else {
            if let PlayerSelectUi::HumanFighter(_) = x.ui {
                s.set(i, PlayerSelect { ui: PlayerSelectUi::HumanUnplugged, ..x });
                let ghost hidden = s@;
                let mut j: usize = 0;
                while j < s.len()
                    invariant
                        j <= s@.len(),
                        s@.len() == hidden.len(),
                        forall|q: int| 0 <= q < j ==> #[trigger] s@[q] == (if held_by(hidden[q], i) {
                            PlayerSelect { controller: None, ..hidden[q] }
                        } else {
                            hidden[q]
                        }),
                        forall|q: int| j <= q < s@.len() ==> #[trigger] s@[q] == hidden[q],
                    decreases s@.len() - j,
                {
                    let y = s[j];
                    if let Some(p) = y.controller {
                        if p.0 == i {
                            s.set(j, PlayerSelect { controller: None, ..y });
                        }
                    }
                    j = j + 1;
                }
                assert(s@ =~= released_controller(hidden, i));
            }
        }
        i = i + 1;
        assert(s@ == plug_one(before, (i - 1) as usize, inputs@[i - 1], fighter_count));
    }
}

/// The last slot below `n` that controller `c` operates, or 0 when none does.
pub open spec fn holder(s: Seq<PlayerSelect>, c: usize, n: int) -> int
    decreases n,
{
    if n <= 0 {
        0
    } else if held_by(s[n - 1], c) {
        n - 1
    } else {
        holder(s, c, n - 1)
    }
}

/// Whether controller `c` may move its cursor to slot `j`: a CPU slot that
/// no controller operates, or the controller's own slot.
pub open spec fn can_move_to(s: Seq<PlayerSelect>, j: int, c: usize) -> bool {
    (s[j].ui.spec_is_cpu() && s[j].controller is None) || j == c
}

/// Whether slot `j` is a place to move to from slot `si`, on the given side.
pub open spec fn side_target(s: Seq<PlayerSelect>, j: int, si: int, c: usize, above: bool) -> bool {
    (if above {
        j > si
    } else {
        j < si
    }) && can_move_to(s, j, c)
}

/// The highest slot below `n` on the given side of `si` that `c` can move to.
pub open spec fn last_target(s: Seq<PlayerSelect>, si: int, c: usize, n: int, above: bool) -> Option<int>
    decreases n,
{
    if n <= 0 {
        None
    } else if side_target(s, n - 1, si, c, above) {
        Some(n - 1)
    } else {
        last_target(s, si, c, n - 1, above)
    }
}

/// The lowest slot below `n` on the given side of `si` that `c` can move to.
pub open spec fn first_target(s: Seq<PlayerSelect>, si: int, c: usize, n: int, above: bool) -> Option<int>
    decreases n,
{
    if n <= 0 {
        None
    } else {
        let p = first_target(s, si, c, n - 1, above);
        if p is Some {
            p
        } else if side_target(s, n - 1, si, c, above) {
            Some(n - 1)
        } else {
            None
        }
    }
}

/// Where moving left from slot `si` goes: the nearest slot to the left,
/// wrapping around to the rightmost.
pub open spec fn left_target(s: Seq<PlayerSelect>, si: int, c: usize) -> Option<int> {
    match last_target(s, si, c, s.len() as int, false) {
        Some(j) => Some(j),
        None => last_target(s, si, c, s.len() as int, true),
    }
}

/// Where moving right from slot `si` goes: the nearest slot to the right,
/// wrapping around to the leftmost.
pub open spec fn right_target(s: Seq<PlayerSelect>, si: int, c: usize) -> Option<int> {
    match first_target(s, si, c, s.len() as int, true) {
        Some(j) => Some(j),
        None => first_target(s, si, c, s.len() as int, false),
    }
}

/// The slots after the controller of slot `si` moves to slot `ni`; the
/// slot it leaves has its cursor cleared.
pub open spec fn moved(s: Seq<PlayerSelect>, si: int, ni: int) -> Seq<PlayerSelect> {
    let t = s.update(ni, PlayerSelect { controller: s[si].controller, ..s[ni] });
    t.update(si, PlayerSelect { controller: None, ui: t[si].ui.cleared(), ..t[si] })
}

/// The slots after controller `c` (with input `input`) moves between
/// slots; `None` when the slot it should operate has no controller.
pub open spec fn move_one(s: Seq<PlayerSelect>, c: usize, input: MenuInput) -> Option<Seq<PlayerSelect>> {
    if !input.plugged_in {
        Some(s)
    } else {
        let si = holder(s, c, s.len() as int);
        if si >= s.len() {
            None
        } else {
            match s[si].controller {
                None => None,
                Some(p) => {
                    let t = p.1;
                    if input.left || input.right {
                        let s1 = s.update(si, PlayerSelect { controller: Some((p.0, t.ticked())), ..s[si] });
                        let target = if input.left {
                            left_target(s1, si, c)
                        } else {
                            right_target(s1, si, c)
                        };
                        if t.fires() {
                            match target {
                                Some(ni) => Some(moved(s1, si, ni)),
                                None => Some(s1),
                            }
                        } else {
                            Some(s1)
                        }
                    } else {
                        Some(s.update(si, PlayerSelect { controller: Some((p.0, t.released())), ..s[si] }))
                    }
                },
            }
        }
    }
}

/// The slots after the first `n` controllers move between slots.
pub open spec fn moves(s: Seq<PlayerSelect>, inputs: Seq<MenuInput>, n: nat) -> Option<Seq<PlayerSelect>>
    decreases n,
{
    if n == 0 {
        Some(s)
    } else {
        match moves(s, inputs, (n - 1) as nat) {
            Some(p) => move_one(p, (n - 1) as usize, inputs[n - 1]),
            None => None,
        }
    }
}

proof fn lemma_moves_stay_none(s: Seq<PlayerSelect>, inputs: Seq<MenuInput>, k: nat, n: nat)
    requires
        k <= n,
        moves(s, inputs, k) is None,
    ensures
        moves(s, inputs, n) is None,
    decreases n - k,
{
    if k < n {
        lemma_moves_stay_none(s, inputs, k, (n - 1) as nat);
    }
}

fn find_holder(s: &Vec<PlayerSelect>, c: usize) -> (si: usize)
    ensures
        si == holder(s@, c, s@.len() as int),
{
    let mut si: usize = 0;
    let mut j: usize = 0;
    while j < s.len()
        invariant
            j <= s@.len(),
            si == holder(s@, c, j as int),
        decreases s@.len() - j,
    {
        if let Some(p) = s[j].controller {
            if p.0 == c {
                si = j;
            }
        }
        j = j + 1;
    }
    si
}

fn find_last_target(s: &Vec<PlayerSelect>, si: usize, c: usize, above: bool) -> (r: Option<usize>)
    ensures
        match last_target(s@, si as int, c, s@.len() as int, above) {
            Some(j) => r == Some(j as usize) && 0 <= j < s@.len(),
            None => r is None,
        },
{
    let mut r: Option<usize> = None;
    let mut j: usize = 0;
    while j < s.len()
        invariant
            j <= s@.len(),
            match last_target(s@, si as int, c, j as int, above) {
                Some(k) => r == Some(k as usize) && 0 <= k < j,
                None => r is None,
            },
        decreases s@.len() - j,
    {
        let side = if above {
            j > si
        } else {
            j < si
        };
        if side && ((s[j].ui.is_cpu() && s[j].controller.is_none()) || j == c) {
            r = Some(j);
        }
        j = j + 1;
    }
    r
}

fn find_first_target(s: &Vec<PlayerSelect>, si: usize, c: usize, above: bool) -> (r: Option<usize>)
    ensures
        match first_target(s@, si as int, c, s@.len() as int, above) {
            Some(j) => r == Some(j as usize) && 0 <= j < s@.len(),
            None => r is None,
        },
{
    let mut r: Option<usize> = None;
    let mut j: usize = 0;
    while j < s.len()
        invariant
            j <= s@.len(),
            match first_target(s@, si as int, c, j as int, above) {
                Some(k) => r == Some(k as usize) && 0 <= k < j,
                None => r is None,
            },
        decreases s@.len() - j,
    {
        if r.is_none() {
            let side = if above {
                j > si
            } else {
                j < si
            };
            if side && ((s[j].ui.is_cpu() && s[j].controller.is_none()) || j == c) {
                r = Some(j);
            }
        }
        j = j + 1;
    }
    r
}

/// Moves the cursor of controller `c`; `false` when the slot it should
/// operate has no controller.
fn move_cursor(s: &mut Vec<PlayerSelect>, c: usize, input: MenuInput) -> (ok: bool)
    requires
        slots_wf(old(s)@),
    ensures
        match move_one(old(s)@, c, input) {
            Some(n) => ok && final(s)@ == n,
            None => !ok,
        },
        ok ==> slots_wf(final(s)@),
{
    if !input.plugged_in {
        return true;
    }
    let si = find_holder(s, c);
    if si >= s.len() {
        return false;
    }
    let x = s[si];
    match x.controller {
        None => {
            assert(old(s)@[si as int].controller is None);
            false
        },
        Some(p) => {
            let mut t = p.1;
            assert(s@[si as int].controller == Some(p));
            if input.left || input.right {
                let fires = t.tick();
                s.set(si, PlayerSelect { controller: Some((p.0, t)), ..x });
                assert(slots_wf(s@)) by {
                    assert forall|q: int| 0 <= q < s@.len() implies (#[trigger] s@[q]).ui.wf()
                        && match s@[q].controller {
                        Some(pp) => pp.1.wf(),
                        None => true,
                    } by {
                        if q != si {
                            assert(s@[q] == old(s)@[q]);
                        }
                    }
                }
                let target = if input.left {
                    match find_last_target(s, si, c, false) {
                        Some(j) => Some(j),
                        None => find_last_target(s, si, c, true),
                    }
                } else {
                    match find_first_target(s, si, c, true) {
                        Some(j) => Some(j),
                        None => find_first_target(s, si, c, false),
                    }
                };
                if fires {
                    if let Some(ni) = target {
                        let ghost s1 = s@;
                        let y = s[ni];
                        let held = s[si].controller;
                        s.set(ni, PlayerSelect { controller: held, ..y });
                        let mut z = s[si];
                        z.ui.ticker_full_reset();
                        z.controller = None;
                        s.set(si, z);
                        assert(s@ =~= moved(s1, si as int, ni as int));
                        assert(slots_wf(s@)) by {
                            assert forall|q: int| 0 <= q < s@.len() implies (#[trigger] s@[q]).ui.wf()
                                && match s@[q].controller {
                                Some(pp) => pp.1.wf(),
                                None => true,
                            } by {
                                assert(s1[q].ui.wf());
                                assert(s1[si as int].ui.wf());
                            }
                        }
                    }
                }
                true
            } else {
                t.reset();
                s.set(si, PlayerSelect { controller: Some((p.0, t)), ..x });
                assert(slots_wf(s@)) by {
                    assert forall|q: int| 0 <= q < s@.len() implies (#[trigger] s@[q]).ui.wf()
                        && match s@[q].controller {
                        Some(pp) => pp.1.wf(),
                        None => true,
                    } by {
                        if q != si {
                            assert(s@[q] == old(s)@[q]);
                        }
                    }
                }
                true
            }
        },
    }
}

fn move_cursors(s: &mut Vec<PlayerSelect>, inputs: &[MenuInput]) -> (ok: bool)
    requires
        slots_wf(old(s)@),
    ensures
        match moves(old(s)@, inputs@, inputs@.len() as nat) {
            Some(n) => ok && final(s)@ == n,
            None => !ok,
        },
        ok ==> slots_wf(final(s)@),
{
    let mut i: usize = 0;
    while i < inputs.len()
        invariant
            i <= inputs@.len(),
            moves(old(s)@, inputs@, i as nat) == Some(s@),
            slots_wf(s@),
        decreases inputs@.len() - i,
    {
        if !move_cursor(s, i, inputs[i]) {
            proof {
                lemma_moves_stay_none(old(s)@, inputs@, (i + 1) as nat, inputs@.len() as nat);
            }
            return false;
        }
        i = i + 1;
    }
    true
}

/// What pressing a button does to slot `x`: the new slot, whether a CPU
/// player is to be added, and whether this CPU slot is to be removed.
/// `None` when the slot's cursor is somewhere its screen has no choice for.
pub open spec fn chosen(x: PlayerSelect, input: MenuInput, fighter_count: usize) -> Option<
    (PlayerSelect, bool, bool),
> {
    if input.b_press {
        match x.ui {
            PlayerSelectUi::HumanFighter(_) => Some((PlayerSelect { fighter: None, ..x }, false, false)),
            PlayerSelectUi::CpuFighter(_) => Some((PlayerSelect { fighter: None, ..x }, false, false)),
            PlayerSelectUi::HumanTeam(_) => Some(
                (
                    PlayerSelect { ui: PlayerSelectUi::spec_human_fighter(fighter_count), ..x },
                    false,
                    false,
                ),
            ),
            PlayerSelectUi::CpuTeam(_) => Some(
                (PlayerSelect { ui: PlayerSelectUi::spec_cpu_fighter(fighter_count), ..x }, false, false),
            ),
            PlayerSelectUi::CpuAi(_) => Some(
                (PlayerSelect { ui: PlayerSelectUi::spec_cpu_fighter(fighter_count), ..x }, false, false),
            ),
            PlayerSelectUi::HumanUnplugged => None,
        }
    } else if input.a_press {
        match x.ui {
            PlayerSelectUi::HumanFighter(t) => if t.pos() < fighter_count {
                Some((PlayerSelect { fighter: Some(t.pos()), ..x }, false, false))
            } else if t.pos() - fighter_count == 0 {
                Some(
                    (
                        PlayerSelect { ui: PlayerSelectUi::HumanTeam(MenuTicker::fresh(9)), ..x },
                        false,
                        false,
                    ),
                )
            } else if t.pos() - fighter_count == 1 {
                Some((x, true, false))
            } else {
                None
            },
            PlayerSelectUi::CpuFighter(t) => if t.pos() < fighter_count {
                Some((PlayerSelect { fighter: Some(t.pos()), ..x }, false, false))
            } else if t.pos() - fighter_count == 0 {
                Some(
                    (PlayerSelect { ui: PlayerSelectUi::CpuTeam(MenuTicker::fresh(9)), ..x }, false, false),
                )
            } else if t.pos() - fighter_count == 1 {
                Some((x, false, false))
            } else if t.pos() - fighter_count == 2 {
                Some((x, false, true))
            } else {
                None
            },
            PlayerSelectUi::HumanTeam(t) => if t.pos() < 8 {
                Some((PlayerSelect { team: t.pos(), ..x }, false, false))
            } else if t.pos() - 8 == 0 {
                Some(
                    (
                        PlayerSelect { ui: PlayerSelectUi::spec_human_fighter(fighter_count), ..x },
                        false,
                        false,
                    ),
                )
            } else {
                None
            },
            PlayerSelectUi::CpuTeam(t) => if t.pos() < 8 {
                Some((PlayerSelect { team: t.pos(), ..x }, false, false))
            } else if t.pos() - 8 == 0 {
                Some(
                    (PlayerSelect { ui: PlayerSelectUi::spec_cpu_fighter(fighter_count), ..x }, false, false),
                )
            } else {
                None
            },
            PlayerSelectUi::CpuAi(_) => Some((x, false, false)),
            PlayerSelectUi::HumanUnplugged => None,
        }
    } else {
        Some((x, false, false))
    }
}

/// Slot `x` after the controller operating it (if any) has its frame: a
/// button choice, then the slot's cursor follows up and down. `None` when
/// the controller does not exist or the choice is undefined.
pub open spec fn updated_slot(x: PlayerSelect, inputs: Seq<MenuInput>, fighter_count: usize) -> Option<
    (PlayerSelect, bool, bool),
> {
    match x.controller {
        None => Some((x, false, false)),
        Some(p) => if p.0 >= inputs.len() {
            None
        } else {
            let input = inputs[p.0 as int];
            match chosen(x, input, fighter_count) {
                None => None,
                Some(q) => Some(
                    (PlayerSelect { ui: q.0.ui.stepped(input.up, input.down), ..q.0 }, q.1, q.2),
                ),
            }
        },
    }
}

/// The first `n` slots of `s` updated, whether a CPU player is to be added,
/// and the last CPU slot to be removed.
pub open spec fn choices(
    s: Seq<PlayerSelect>,
    inputs: Seq<MenuInput>,
    fighter_count: usize,
    n: nat,
) -> Option<(Seq<PlayerSelect>, bool, Option<int>)>
    decreases n,
{
    if n == 0 {
        Some((s, false, None))
    } else {
        match choices(s, inputs, fighter_count, (n - 1) as nat) {
            None => None,
            Some(p) => match updated_slot(s[n - 1], inputs, fighter_count) {
                None => None,
                Some(u) => Some(
                    (
                        p.0.update(n - 1, u.0),
                        p.1 || u.1,
                        if u.2 {
                            Some(n - 1)
                        } else {
                            p.2
                        },
                    ),
                ),
            },
        }
    }
}

proof fn lemma_choices_stay_none(
    s: Seq<PlayerSelect>,
    inputs: Seq<MenuInput>,
    fighter_count: usize,
    k: nat,
    n: nat,
)
    requires
        k <= n,
        choices(s, inputs, fighter_count, k) is None,
    ensures
        choices(s, inputs, fighter_count, n) is None,
    decreases n - k,
{
    if k < n {
        lemma_choices_stay_none(s, inputs, fighter_count, k, (n - 1) as nat);
    }
}

proof fn lemma_choices_shape(
    s: Seq<PlayerSelect>,
    inputs: Seq<MenuInput>,
    fighter_count: usize,
    n: nat,
)
    requires
        n <= s.len(),
        choices(s, inputs, fighter_count, n) is Some,
    ensures
        (choices(s, inputs, fighter_count, n)->0).0.len() == s.len(),
        forall|j: int|
            n <= j < s.len() ==> #[trigger] (choices(s, inputs, fighter_count, n)->0).0[j] == s[j],
        (choices(s, inputs, fighter_count, n)->0).2 matches Some(r) ==> 0 <= r < n && s[r].controller
            is Some && (updated_slot(s[r], inputs, fighter_count)->0).2,
        forall|j: int|
            0 <= j < n ==> (#[trigger] (choices(s, inputs, fighter_count, n)->0).0[j]).controller
                == s[j].controller,
    decreases n,
{
    if n > 0 {
        lemma_choices_shape(s, inputs, fighter_count, (n - 1) as nat);
    }
}

fn choose_for(x: PlayerSelect, input: MenuInput, fighter_count: usize) -> (r: Option<(PlayerSelect, bool, bool)>)
    requires
        fighter_count + 3 <= usize::MAX,
        x.ui.wf(),
    ensures
        r == chosen(x, input, fighter_count),
        r matches Some(q) ==> q.0.ui.wf() && q.0.controller == x.controller,
{
    if input.b_press {
        match x.ui {
            PlayerSelectUi::HumanFighter(_) => Some((PlayerSelect { fighter: None, ..x }, false, false)),
            PlayerSelectUi::CpuFighter(_) => Some((PlayerSelect { fighter: None, ..x }, false, false)),
            PlayerSelectUi::HumanTeam(_) => Some(
                (PlayerSelect { ui: PlayerSelectUi::human_fighter(fighter_count), ..x }, false, false),
            ),
            PlayerSelectUi::CpuTeam(_) => Some(
                (PlayerSelect { ui: PlayerSelectUi::cpu_fighter(fighter_count), ..x }, false, false),
            ),
            PlayerSelectUi::CpuAi(_) => Some(
                (PlayerSelect { ui: PlayerSelectUi::cpu_fighter(fighter_count), ..x }, false, false),
            ),
            PlayerSelectUi::HumanUnplugged => None,
        }
    } else if input.a_press {
        match x.ui {
            PlayerSelectUi::HumanFighter(t) => {
                let c = t.position();
                if c < fighter_count {
                    Some((PlayerSelect { fighter: Some(c), ..x }, false, false))
                } else if c - fighter_count == 0 {
                    Some((PlayerSelect { ui: PlayerSelectUi::human_team(), ..x }, false, false))
                } else if c - fighter_count == 1 {
                    Some((x, true, false))
                } else {
                    None
                }
            },
            PlayerSelectUi::CpuFighter(t) => {
                let c = t.position();
                if c < fighter_count {
                    Some((PlayerSelect { fighter: Some(c), ..x }, false, false))
                } else if c - fighter_count == 0 {
                    Some((PlayerSelect { ui: PlayerSelectUi::cpu_team(), ..x }, false, false))
                } else if c - fighter_count == 1 {
                    Some((x, false, false))
                } else if c - fighter_count == 2 {
                    Some((x, false, true))
                } else {
                    None
                }
            },
            PlayerSelectUi::HumanTeam(t) => {
                let c = t.position();
                if c < team_color_count() {
                    Some((PlayerSelect { team: c, ..x }, false, false))
                } else if c - team_color_count() == 0 {
                    Some((PlayerSelect { ui: PlayerSelectUi::human_fighter(fighter_count), ..x }, false, false))
                } else {
                    None
                }
            },
            PlayerSelectUi::CpuTeam(t) => {
                let c = t.position();
                if c < team_color_count() {
                    Some((PlayerSelect { team: c, ..x }, false, false))
                } else if c - team_color_count() == 0 {
                    Some((PlayerSelect { ui: PlayerSelectUi::cpu_fighter(fighter_count), ..x }, false, false))
                } else {
                    None
                }
            },
            PlayerSelectUi::CpuAi(_) => Some((x, false, false)),
            PlayerSelectUi::HumanUnplugged => None,
        }
    } else {
        Some((x, false, false))
    }
}

fn step_slot_cursor(ui: &mut PlayerSelectUi, up: bool, down: bool)
    requires
        old(ui).wf(),
    ensures
        *final(ui) == old(ui).stepped(up, down),
        final(ui).wf(),
{
    match ui {
        PlayerSelectUi::HumanFighter(t) => {
            if up {
                t.up();
            } else if down {
                t.down();
            } else {
                t.reset();
            }
        },
        PlayerSelectUi::CpuFighter(t) => {
            if up {
                t.up();
            } else if down {
                t.down();
            } else {
                t.reset();
            }
        },
        PlayerSelectUi::HumanTeam(t) => {
            if up {
                t.up();
            } else if down {
                t.down();
            } else {
                t.reset();
            }
        },
        PlayerSelectUi::CpuTeam(t) => {
            if up {
                t.up();
            } else if down {
                t.down();
            } else {
                t.reset();
            }
        },
        PlayerSelectUi::CpuAi(t) => {
            if up {
                t.up();
            } else if down {
                t.down();
            } else {
                t.reset();
            }
        },
        PlayerSelectUi::HumanUnplugged => {},
    }
}

fn make_choices(s: &mut Vec<PlayerSelect>, inputs: &[MenuInput], fighter_count: usize) -> (r: Option<(bool, Option<usize>)>)
    requires
        fighter_count + 3 <= usize::MAX,
        slots_wf(old(s)@),
    ensures
        match choices(old(s)@, inputs@, fighter_count, old(s)@.len() as nat) {
            Some(c) => r matches Some(q) && final(s)@ == c.0 && q.0 == c.1 && match c.2 {
                Some(k) => q.1 == Some(k as usize),
                None => q.1 is None,
            },
            None => r is None,
        },
        r is Some ==> slots_wf(final(s)@),
{
    let ghost s0 = s@;
    let mut add_cpu = false;
    let mut remove_cpu: Option<usize> = None;
    let mut i: usize = 0;
    while i < s.len()
        invariant
            s0 == old(s)@,
            i <= s@.len(),
            s@.len() == s0.len(),
            fighter_count + 3 <= usize::MAX,
            slots_wf(s0),
            choices(s0, inputs@, fighter_count, i as nat) == Some(
                (s@, add_cpu, match remove_cpu {
                    Some(k) => Some(k as int),
                    None => None,
                }),
            ),
            forall|j: int| i <= j < s@.len() ==> #[trigger] s@[j] == s0[j],
            forall|j: int| 0 <= j < i ==> (#[trigger] s@[j]).ui.wf() && match s@[j].controller {
                Some(pp) => pp.1.wf(),
                None => true,
            },
        decreases s@.len() - i,
    {
        let x = s[i];
        assert(x == s0[i as int]);
        match x.controller {
            None => {},
            Some(p) => {
                if p.0 >= inputs.len() {
                    proof {
                        lemma_choices_stay_none(s0, inputs@, fighter_count, (i + 1) as nat, s0.len());
                    }
                    return None;
                }
                let input = inputs[p.0];
                match choose_for(x, input, fighter_count) {
                    None => {
                        proof {
                            lemma_choices_stay_none(s0, inputs@, fighter_count, (i + 1) as nat, s0.len());
                        }
                        return None;
                    },
                    Some(q) => {
                        let mut y = q.0;
                        step_slot_cursor(&mut y.ui, input.up, input.down);
                        s.set(i, y);
                        if q.1 {
                            add_cpu = true;
                        }
                        if q.2 {
                            remove_cpu = Some(i);
                        }
                    },
                }
            },
        }
        i = i + 1;
    }
    Some((add_cpu, remove_cpu))
}

/// The slots after a CPU slot that chose to leave is removed; its
/// controller goes back to the controller's own slot. `None` when that
/// slot does not exist.
pub open spec fn after_removal(s: Seq<PlayerSelect>, remove: Option<int>) -> Option<Seq<PlayerSelect>> {
    match remove {
        None => Some(s),
        Some(si) => match s[si].controller {
            None => None,
            Some(p) => if p.0 >= s.len() {
                None
            } else {
                Some(
                    s.update(
                        p.0 as int,
                        PlayerSelect { controller: s[si].controller, ..s[p.0 as int] },
                    ).remove(si),
                )
            },
        },
    }
}

/// A new CPU slot.
pub open spec fn cpu_slot(fighter_count: usize, team: usize) -> PlayerSelect {
    PlayerSelect {
        controller: None,
        fighter: None,
        cpu_ai: None,
        team,
        ui: PlayerSelectUi::spec_cpu_fighter(fighter_count),
        animation_frame: 0,
    }
}

/// The slots after a CPU player is asked for: one is added, with the lowest
/// free team, while fewer than four slots are visible.
pub open spec fn after_add(s: Seq<PlayerSelect>, add: bool, fighter_count: usize) -> Seq<PlayerSelect> {
    if add && count_visible(s) < 4 {
        s.push(cpu_slot(fighter_count, least_free_team(s)))
    } else {
        s
    }
}

/// The slots after a frame of the character select screen, or `None` when
/// the frame cannot be played (see the module documentation).
pub open spec fn select_slots(
    s: Seq<PlayerSelect>,
    inputs: Seq<MenuInput>,
    fighter_count: usize,
    css_frames: Seq<Option<usize>>,
) -> Option<Seq<PlayerSelect>> {
    let s0 = after_rebuild(s, inputs, fighter_count);
    if !animate_ok(s0, css_frames) {
        None
    } else {
        let s1 = s0.map_values(|x: PlayerSelect| animated_slot(x, css_frames));
        let s2 = plugged(s1, inputs, inputs.len(), fighter_count);
        match moves(s2, inputs, inputs.len()) {
            None => None,
            Some(s3) => match choices(s3, inputs, fighter_count, s3.len()) {
                None => None,
                Some(c) => match after_removal(c.0, c.2) {
                    None => None,
                    Some(s4) => Some(after_add(s4, c.1, fighter_count)),
                },
            },
        }
    }
}

/// Whether any controller pressed start.
pub open spec fn any_start(inputs: Seq<MenuInput>) -> bool {
    exists|i: int| 0 <= i < inputs.len() && (#[trigger] inputs[i]).start_press
}

/// Whether any controller holds back.
pub open spec fn any_b_held(inputs: Seq<MenuInput>) -> bool {
    exists|i: int| 0 <= i < inputs.len() && (#[trigger] inputs[i]).b_held
}

/// Where the screen goes and the new back counter: start (with fighters
/// to play) goes to the stage select; holding back for more than
/// `back_counter_max` frames goes back to the game select.
pub open spec fn select_outcome(
    inputs: Seq<MenuInput>,
    fighter_count: usize,
    back_counter: usize,
    back_counter_max: usize,
) -> (SelectOutcome, usize) {
    if any_start(inputs) && fighter_count > 0 {
        (SelectOutcome::StageSelect, back_counter)
    } else if any_b_held(inputs) {
        if back_counter > back_counter_max {
            (SelectOutcome::GameSelect, back_counter)
        } else {
            ((SelectOutcome::Stay, (back_counter + 1) as usize))
        }
    } else {
        (SelectOutcome::Stay, 0)
    }
}

fn count_visible_exec(s: &Vec<PlayerSelect>) -> (n: usize)
    ensures
        n == count_visible(s@),
{
    let mut n: usize = 0;
    let mut i: usize = 0;
    while i < s.len()
        invariant
            i <= s@.len(),
            n == count_visible(s@.take(i as int)),
            n <= i,
        decreases s@.len() - i,
    {
        assert(s@.take(i + 1).drop_last() =~= s@.take(i as int));
        if s[i].ui.is_visible() {
            n = n + 1;
        }
        i = i + 1;
    }
    assert(s@.take(s@.len() as int) =~= s@);
    n
}

proof fn lemma_rebuilt_len(inputs: Seq<MenuInput>, n: nat, fighter_count: usize)
    ensures
        rebuilt(inputs, n, fighter_count).len() == n,
    decreases n,
{
    if n > 0 {
        lemma_rebuilt_len(inputs, (n - 1) as nat, fighter_count);
    }
}

/// One frame of the character select screen (see `select_slots` and
/// `select_outcome`): `selections` are the player slots, `back_counter`
/// counts the frames back was held, `stage_ticker` is the stage cursor,
/// which is created when the stage select is first entered. `css_frames`
/// gives, for every fighter, the number of frames of its select screen
/// action, if it has one. `None` when the frame cannot be played.
pub fn step_fighter_select(
    selections: &mut Vec<PlayerSelect>,
    back_counter: &mut usize,
    stage_ticker: &mut Option<MenuTicker>,
    inputs: &[MenuInput],
    fighter_count: usize,
    css_frames: &[Option<usize>],
    stage_count: usize,
    back_counter_max: usize,
) -> (r: Option<SelectOutcome>)
    requires
        fighter_count + 3 <= usize::MAX,
        slots_wf(old(selections)@),
        back_counter_max < usize::MAX,
    ensures
        match select_slots(old(selections)@, inputs@, fighter_count, css_frames@) {
            None => r is None,
            Some(n) => {
                let o = select_outcome(inputs@, fighter_count, *old(back_counter), back_counter_max);
                &&& r == Some(o.0)
                &&& final(selections)@ == n
                &&& slots_wf(n)
                &&& *final(back_counter) == o.1
                &&& *final(stage_ticker) == if o.0 == SelectOutcome::StageSelect
                    && *old(stage_ticker) is None {
                    Some(MenuTicker::fresh(stage_count))
                } else {
                    *old(stage_ticker)
                }
            },
        },
{
    let ghost s_in = selections@;
    rebuild(selections, inputs, fighter_count);
    if !animate(selections, css_frames) {
        return None;
    }
    plug(selections, inputs, fighter_count);
    if !move_cursors(selections, inputs) {
        return None;
    }
    let ghost s3 = selections@;
    let n3 = selections.len();
    let (add_cpu, remove_cpu) = match make_choices(selections, inputs, fighter_count) {
        None => {
            return None;
        },
        Some(c) => c,
    };
    proof {
        lemma_choices_shape(s3, inputs@, fighter_count, s3.len());
    }
    if let Some(si) = remove_cpu {
        let ghost c = selections@;
        assert(si < selections@.len());
        proof {
            assert(choices(s3, inputs@, fighter_count, s3.len()) is Some);
            let ch = choices(s3, inputs@, fighter_count, s3.len())->0;
            assert(ch.2 is Some);
            let k = ch.2->0;
            assert(0 <= k < n3);
            assert(ch.2 == Some(si as int));
            assert(ch.0 == selections@);
            assert(ch.0[si as int].controller == s3[si as int].controller);
        }
        match selections[si].controller {
            None => {
                return None;
            },
            Some(p) => {
                let home = p.0;
                if home >= selections.len() {
                    return None;
                }
                let y = selections[home];
                selections.set(home, PlayerSelect { controller: Some(p), ..y });
                selections.remove(si);
                assert(selections@ =~= c.update(home as int, PlayerSelect { controller: c[si as int].controller, ..c[home as int] }).remove(si as int));
            },
        }
    }
    if add_cpu {
        if count_visible_exec(selections) < 4 {
            let team = free_team(selections);
            selections.push(
                PlayerSelect {
                    controller: None,
                    fighter: None,
                    cpu_ai: None,
                    team,
                    ui: PlayerSelectUi::cpu_fighter(fighter_count),
                    animation_frame: 0,
                },
            );
        }
    }
    let mut start = false;
    let mut b = false;
    let mut i: usize = 0;
    while i < inputs.len()
        invariant
            i <= inputs@.len(),
            start == exists|j: int| 0 <= j < i && (#[trigger] inputs@[j]).start_press,
            b == exists|j: int| 0 <= j < i && (#[trigger] inputs@[j]).b_held,
        decreases inputs@.len() - i,
    {
        if inputs[i].start_press {
            start = true;
        }
        if inputs[i].b_held {
            b = true;
        }
        i = i + 1;
    }
    if start && fighter_count > 0 {
        if stage_ticker.is_none() {
            *stage_ticker = Some(MenuTicker::new(stage_count));
        }
        Some(SelectOutcome::StageSelect)
    } else if b {
        if *back_counter > back_counter_max {
            Some(SelectOutcome::GameSelect)
        } else {
            *back_counter = *back_counter + 1;
            Some(SelectOutcome::Stay)
        }
    } else {
        *back_counter = 0;
        Some(SelectOutcome::Stay)
    }
}


/// Pressing A (and not B) on a team screen, human or CPU, with the cursor
/// on one of the eight team colors gives the slot that team. The slot keeps
/// its controller and fighter, and no CPU player is added or removed.
pub proof fn law_choosing_a_team_color_sets_the_team(
    x: PlayerSelect,
    inputs: Seq<MenuInput>,
    fighter_count: usize,
    t: MenuTicker,
    human: bool,
)
    requires
        x.controller matches Some(p) && p.0 < inputs.len() && inputs[p.0 as int].a_press
            && !inputs[p.0 as int].b_press,
        x.ui == if human { PlayerSelectUi::HumanTeam(t) } else { PlayerSelectUi::CpuTeam(t) },
        t.pos() < 8,
    ensures
        updated_slot(x, inputs, fighter_count) matches Some(u) && u.0.team == t.pos()
            && u.0.controller == x.controller && u.0.fighter == x.fighter && !u.1 && !u.2,
{
}

/// Pressing A (and not B) on a fighter screen, human or CPU, with the cursor
/// on one of the fighters picks that fighter, and keeps the slot's team.
pub proof fn law_choosing_a_fighter_picks_it(
    x: PlayerSelect,
    inputs: Seq<MenuInput>,
    fighter_count: usize,
    t: MenuTicker,
    human: bool,
)
    requires
        x.controller matches Some(p) && p.0 < inputs.len() && inputs[p.0 as int].a_press
            && !inputs[p.0 as int].b_press,
        x.ui == if human { PlayerSelectUi::HumanFighter(t) } else { PlayerSelectUi::CpuFighter(t) },
        t.pos() < fighter_count,
    ensures
        updated_slot(x, inputs, fighter_count) matches Some(u) && u.0.fighter == Some(t.pos())
            && u.0.team == x.team && !u.1 && !u.2,
{
}

/// Every slot is updated on its own: when the first `n` slots can be
/// updated, the slots keep their number and slot `k` of the result is slot
/// `k` updated with its controller's input.
pub proof fn law_each_slot_is_updated_on_its_own(
    s: Seq<PlayerSelect>,
    inputs: Seq<MenuInput>,
    fighter_count: usize,
    n: nat,
    k: int,
)
    requires
        n <= s.len(),
        0 <= k < n,
        choices(s, inputs, fighter_count, n) is Some,
    ensures
        choices(s, inputs, fighter_count, n) matches Some(c) && c.0.len() == s.len(),
        updated_slot(s[k], inputs, fighter_count) matches Some(u) && choices(s, inputs, fighter_count, n)
            matches Some(c) && c.0[k] == u.0,
    decreases n,
{
    lemma_choices_len(s, inputs, fighter_count, n);
    lemma_choices_len(s, inputs, fighter_count, (n - 1) as nat);
    if k < n - 1 {
        law_each_slot_is_updated_on_its_own(s, inputs, fighter_count, (n - 1) as nat, k);
    }
}

proof fn lemma_choices_len(s: Seq<PlayerSelect>, inputs: Seq<MenuInput>, fighter_count: usize, n: nat)
    requires
        n <= s.len(),
        choices(s, inputs, fighter_count, n) is Some,
    ensures
        choices(s, inputs, fighter_count, n) matches Some(c) && c.0.len() == s.len(),
    decreases n,
{
    if n > 0 {
        lemma_choices_len(s, inputs, fighter_count, (n - 1) as nat);
    }
}


/// Pressing B on a fighter screen, human or CPU, takes back the slot's
/// fighter; on a team screen it goes back to the fighter screen. The team
/// and controller stay, and no CPU player is added or removed.
pub proof fn law_back_undoes_the_choice(
    x: PlayerSelect,
    inputs: Seq<MenuInput>,
    fighter_count: usize,
    t: MenuTicker,
)
    requires
        x.controller matches Some(p) && p.0 < inputs.len() && inputs[p.0 as int].b_press,
        x.ui == PlayerSelectUi::HumanFighter(t) || x.ui == PlayerSelectUi::CpuFighter(t)
            || x.ui == PlayerSelectUi::HumanTeam(t) || x.ui == PlayerSelectUi::CpuTeam(t),
    ensures
        updated_slot(x, inputs, fighter_count) matches Some(u) && u.0.team == x.team
            && u.0.controller == x.controller && !u.1 && !u.2 && ((x.ui is HumanFighter || x.ui is CpuFighter)
            ==> u.0.fighter is None) && (x.ui is HumanTeam ==> u.0.ui is HumanFighter) && (x.ui is CpuTeam
            ==> u.0.ui is CpuFighter),
{
}

} // verus!
