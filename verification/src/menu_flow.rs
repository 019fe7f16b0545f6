//! The menu screens other than character select: what a frame of input
//! does on each of them, and the players a game starts with.

use vstd::prelude::*;
use crate::character_select::MenuInput;
use crate::menu::{MenuTicker, PlayerSelect};
use crate::network::NetplayState;
use crate::text::{chars_of, string_from_chars};

verus! {

/// Whether any controller holds up.
pub open spec fn any_up(inputs: Seq<MenuInput>) -> bool {
    exists|i: int| 0 <= i < inputs.len() && (#[trigger] inputs[i]).up
}

/// Whether any controller holds down.
pub open spec fn any_down(inputs: Seq<MenuInput>) -> bool {
    exists|i: int| 0 <= i < inputs.len() && (#[trigger] inputs[i]).down
}

/// Whether any controller pressed a or start.
pub open spec fn any_accept(inputs: Seq<MenuInput>) -> bool {
    exists|i: int| 0 <= i < inputs.len() && ((#[trigger] inputs[i]).a_press || inputs[i].start_press)
}

/// Whether any controller pressed a.
pub open spec fn any_a(inputs: Seq<MenuInput>) -> bool {
    exists|i: int| 0 <= i < inputs.len() && (#[trigger] inputs[i]).a_press
}

/// Whether any controller pressed b.
pub open spec fn any_back(inputs: Seq<MenuInput>) -> bool {
    exists|i: int| 0 <= i < inputs.len() && (#[trigger] inputs[i]).b_press
}

/// The inputs of every controller, combined.
pub struct Combined {
    pub up: bool,
    pub down: bool,
    pub accept: bool,
    pub a: bool,
    pub back: bool,
}

/// Combines the inputs of every controller.
pub fn combine(inputs: &[MenuInput]) -> (c: Combined)
    ensures
        c.up == any_up(inputs@),
        c.down == any_down(inputs@),
        c.accept == any_accept(inputs@),
        c.a == any_a(inputs@),
        c.back == any_back(inputs@),
{
    let mut c = Combined { up: false, down: false, accept: false, a: false, back: false };
    let mut i: usize = 0;
    while i < inputs.len()
        invariant
            i <= inputs@.len(),
            c.up == exists|j: int| 0 <= j < i && (#[trigger] inputs@[j]).up,
            c.down == exists|j: int| 0 <= j < i && (#[trigger] inputs@[j]).down,
            c.accept == exists|j: int|
                0 <= j < i && ((#[trigger] inputs@[j]).a_press || inputs@[j].start_press),
            c.a == exists|j: int| 0 <= j < i && (#[trigger] inputs@[j]).a_press,
            c.back == exists|j: int| 0 <= j < i && (#[trigger] inputs@[j]).b_press,
        decreases inputs@.len() - i,
    {
        let x = inputs[i];
        if x.a_press {
            c.a = true;
        }
        if x.up {
            c.up = true;
        }
        if x.down {
            c.down = true;
        }
        if x.a_press || x.start_press {
            c.accept = true;
        }
        if x.b_press {
            c.back = true;
        }
        i = i + 1;
    }
    c
}

/// Moves `ticker` as the combined controllers hold up or down.
fn follow(ticker: &mut MenuTicker, c: &Combined)
    requires
        old(ticker).wf(),
    ensures
        *final(ticker) == old(ticker).stepped(c.up, c.down),
        final(ticker).wf(),
{
    if c.up {
        ticker.up();
    } else if c.down {
        ticker.down();
    } else {
        ticker.reset();
    }
}

/// What the game select screen leads to.
#[derive(Clone, Copy, Debug, PartialEq, Eq, Structural)]
pub enum GameSelectChoice {
    Stay,
    CharacterSelect,
    /// Look for a netplay game and wait for it.
    Netplay,
    ReplaySelect,
    /// Back to the package select screen.
    PackageSelect,
}

/// The game select screen (local game, netplay, replays) for a frame: the
/// cursor follows the controllers, and a or start picks the item under it
/// when the package has stages; b goes back to the package select screen.
pub fn step_game_select(ticker: &mut MenuTicker, inputs: &[MenuInput], stage_count: usize) -> (r:
    GameSelectChoice)
    requires
        old(ticker).wf(),
        old(ticker).max() == 2,
    ensures
        *final(ticker) == old(ticker).stepped(any_up(inputs@), any_down(inputs@)),
        final(ticker).wf(),
        r == if any_accept(inputs@) && stage_count > 0 {
            if final(ticker).pos() == 0 {
                GameSelectChoice::CharacterSelect
            } else if final(ticker).pos() == 1 {
                GameSelectChoice::Netplay
            } else {
                GameSelectChoice::ReplaySelect
            }
        } else if any_back(inputs@) {
            GameSelectChoice::PackageSelect
        } else {
            GameSelectChoice::Stay
        },
{
    let c = combine(inputs);
    follow(ticker, &c);
    proof {
        old(ticker).lemma_steps_keep_wf();
    }
    if c.accept && stage_count > 0 {
        let p = ticker.position();
        if p == 0 {
            GameSelectChoice::CharacterSelect
        } else if p == 1 {
            GameSelectChoice::Netplay
        } else {
            GameSelectChoice::ReplaySelect
        }
    } else if c.back {
        GameSelectChoice::PackageSelect
    } else {
        GameSelectChoice::Stay
    }
}

/// What the stage select screen leads to.
#[derive(Clone, Copy, Debug, PartialEq, Eq, Structural)]
pub enum StageSelectChoice {
    Stay,
    /// Start a game on the stage under the cursor.
    StartGame,
    /// Back to the character select screen.
    CharacterSelect,
}

/// The stage select screen for a frame; the stage cursor is created on
/// first use.
pub fn step_stage_select(
    stage_ticker: &mut Option<MenuTicker>,
    inputs: &[MenuInput],
    stage_count: usize,
) -> (r: StageSelectChoice)
    requires
        *old(stage_ticker) matches Some(t) ==> t.wf(),
    ensures
        *final(stage_ticker) == Some(
            match *old(stage_ticker) {
                Some(t) => t,
                None => MenuTicker::fresh(stage_count),
            }.stepped(any_up(inputs@), any_down(inputs@)),
        ),
        final(stage_ticker)->0.wf(),
        r == if any_accept(inputs@) && stage_count > 0 {
            StageSelectChoice::StartGame
        } else if any_back(inputs@) {
            StageSelectChoice::CharacterSelect
        } else {
            StageSelectChoice::Stay
        },
{
    let mut t = match *stage_ticker {
        Some(t) => t,
        None => MenuTicker::new(stage_count),
    };
    let c = combine(inputs);
    follow(&mut t, &c);
    *stage_ticker = Some(t);
    if c.accept && stage_count > 0 {
        StageSelectChoice::StartGame
    } else if c.back {
        StageSelectChoice::CharacterSelect
    } else {
        StageSelectChoice::Stay
    }
}

/// What the replay select screen leads to.
#[derive(Clone, Copy, Debug, PartialEq, Eq, Structural)]
pub enum ReplayChoice {
    Stay,
    /// Load the replay with this index.
    Load(usize),
    /// Back to the game select screen.
    GameSelect,
}

/// The replay select screen for a frame: a or start loads the replay under
/// the cursor, if there are replays.
pub fn step_replay_select(ticker: &mut MenuTicker, inputs: &[MenuInput], replay_count: usize) -> (r:
    ReplayChoice)
    requires
        old(ticker).wf(),
    ensures
        *final(ticker) == old(ticker).stepped(any_up(inputs@), any_down(inputs@)),
        final(ticker).wf(),
        r == if any_accept(inputs@) && replay_count > 0 {
            ReplayChoice::Load(final(ticker).pos())
        } else if any_back(inputs@) {
            ReplayChoice::GameSelect
        } else {
            ReplayChoice::Stay
        },
{
    let c = combine(inputs);
    follow(ticker, &c);
    if c.accept && replay_count > 0 {
        ReplayChoice::Load(ticker.position())
    } else if c.back {
        ReplayChoice::GameSelect
    } else {
        ReplayChoice::Stay
    }
}

/// The package select screen for a frame, while no package is loading:
/// returns the index of the package to load when a or start is pressed.
pub fn step_package_select_inner(ticker: &mut MenuTicker, inputs: &[MenuInput], package_count: usize) -> (r:
    Option<usize>)
    requires
        old(ticker).wf(),
    ensures
        *final(ticker) == old(ticker).stepped(any_up(inputs@), any_down(inputs@)),
        final(ticker).wf(),
        r == if package_count > 0 && any_accept(inputs@) {
            Some(final(ticker).pos())
        } else {
            None::<usize>
        },
{
    let c = combine(inputs);
    follow(ticker, &c);
    if package_count > 0 && c.accept {
        Some(ticker.position())
    } else {
        None
    }
}

/// What the results screen does this frame.
pub struct ResultsStep {
    /// Leave for the screen shown before the game.
    pub leave: bool,
    /// Save the replay of the game now.
    pub save_replay: bool,
}

/// Whether any controller pressed l and r together.
pub open spec fn any_save_request(inputs: Seq<MenuInput>) -> bool {
    exists|i: int| 0 <= i < inputs.len() && (#[trigger] inputs[i]).l_press && inputs[i].r_press
}

/// The results screen for a frame: a or start leaves it; the replay is
/// saved once, automatically when the settings say so, else when a
/// controller presses l and r together.
pub fn step_results(inputs: &[MenuInput], replay_saved: bool, auto_save_replay: bool) -> (r: ResultsStep)
    ensures
        r.leave == any_accept(inputs@),
        r.save_replay == (!replay_saved && (auto_save_replay || any_save_request(inputs@))),
{
    let c = combine(inputs);
    let mut request = false;
    let mut i: usize = 0;
    while i < inputs.len()
        invariant
            i <= inputs@.len(),
            request == exists|j: int| 0 <= j < i && (#[trigger] inputs@[j]).l_press && inputs@[j].r_press,
        decreases inputs@.len() - i,
    {
        if inputs[i].l_press && inputs[i].r_press {
            request = true;
        }
        i = i + 1;
    }
    ResultsStep { leave: c.accept, save_replay: !replay_saved && (auto_save_replay || request) }
}

/// The characters that turn while waiting for a netplay peer.
pub open spec fn spinner(frame: usize) -> Seq<char> {
    let k = (frame / 5) % 4;
    if k == 0 {
        "|"@
    } else if k == 1 {
        "/"@
    } else if k == 2 {
        "-"@
    } else {
        "\\"@
    }
}

/// What the netplay waiting screen does this frame.
pub enum WaitStep {
    /// Show this message.
    Message(String),
    /// Nothing to show yet.
    Idle,
    /// Go offline and back to the game select screen.
    GameSelect,
    /// The peer is ready: on to the character select screen.
    CharacterSelect,
}

fn spinner_text(frame: usize) -> (s: Vec<char>)
    ensures
        s@ == spinner(frame),
{
    let k = (frame / 5) % 4;
    if k == 0 {
        chars_of("|")
    } else if k == 1 {
        chars_of("/")
    } else if k == 2 {
        chars_of("-")
    } else {
        chars_of("\\")
    }
}

/// The netplay waiting screen at menu frame `frame` while the session is in
/// `state`: it shows the progress with a spinner, b (or, once disconnected,
/// a) gives up, and a running session moves on to the character select.
pub fn step_netplay_wait(state: &NetplayState, frame: usize, inputs: &[MenuInput]) -> (r: WaitStep)
    ensures
        match *state {
            NetplayState::Offline => r is Idle,
            NetplayState::InitConnection(_) => if any_back(inputs@) {
                r is GameSelect
            } else {
                r matches WaitStep::Message(m) && m@ == "Connecting to peer "@ + spinner(frame)
            },
            NetplayState::PingTest { .. } => if any_back(inputs@) {
                r is GameSelect
            } else {
                r matches WaitStep::Message(m) && m@ == "Testing ping "@ + spinner(frame)
            },
            NetplayState::Disconnected { .. } => if any_back(inputs@) || any_a(inputs@) {
                r is GameSelect
            } else {
                r is Idle
            },
            NetplayState::Running { .. } => r is CharacterSelect,
        },
{
    let c = combine(inputs);
    match state {
        NetplayState::Offline => WaitStep::Idle,
        NetplayState::InitConnection(_) => {
            if c.back {
                WaitStep::GameSelect
            } else {
                let mut m = chars_of("Connecting to peer ");
                crate::text::extend_chars(&mut m, &spinner_text(frame));
                WaitStep::Message(string_from_chars(&m))
            }
        },
        NetplayState::PingTest { .. } => {
            if c.back {
                WaitStep::GameSelect
            } else {
                let mut m = chars_of("Testing ping ");
                crate::text::extend_chars(&mut m, &spinner_text(frame));
                WaitStep::Message(string_from_chars(&m))
            }
        },
        NetplayState::Disconnected { .. } => {
            if c.back || c.a {
                WaitStep::GameSelect
            } else {
                WaitStep::Idle
            }
        },
        NetplayState::Running { .. } => WaitStep::CharacterSelect,
    }
}

/// The players, controllers and CPU players of a game set up from the
/// first `n` slots, and how many CPU slots without a fighter were skipped.
/// A player is a fighter index and a team; human slots use their own index
/// as the controller, CPU slots count only the CPU slots that play.
pub open spec fn setup_from(s: Seq<PlayerSelect>, n: nat) -> (Seq<(usize, usize)>, Seq<usize>, Seq<usize>, nat)
    decreases n,
{
    if n == 0 {
        (seq![], seq![], seq![], 0)
    } else {
        let p = setup_from(s, (n - 1) as nat);
        let x = s[n - 1];
        let i = (n - 1) as int;
        let p1 = if x.ui.spec_is_human_plugged_in() && x.fighter is Some {
            (p.0.push((x.fighter->0, x.team)), p.1.push(i as usize), p.2, p.3)
        } else {
            p
        };
        if x.ui.spec_is_cpu() {
            if x.fighter is Some {
                (p1.0.push((x.fighter->0, x.team)), p1.1.push((i - p1.3) as usize), p1.2.push(0usize), p1.3)
            } else {
                (p1.0, p1.1, p1.2, p1.3 + 1)
            }
        } else {
            p1
        }
    }
}

proof fn lemma_skipped_bound(s: Seq<PlayerSelect>, n: nat)
    ensures
        setup_from(s, n).3 <= n,
    decreases n,
{
    if n > 0 {
        lemma_skipped_bound(s, (n - 1) as nat);
    }
}

/// The players (fighter index, team), controllers and CPU players of the
/// game that the slots `selections` set up.
pub fn game_setup_players(selections: &[PlayerSelect]) -> (r: (Vec<(usize, usize)>, Vec<usize>, Vec<usize>))
    ensures
        r.0@ == setup_from(selections@, selections@.len() as nat).0,
        r.1@ == setup_from(selections@, selections@.len() as nat).1,
        r.2@ == setup_from(selections@, selections@.len() as nat).2,
{
    let mut players: Vec<(usize, usize)> = Vec::new();
    let mut controllers: Vec<usize> = Vec::new();
    let mut ais: Vec<usize> = Vec::new();
    let mut ais_skipped: usize = 0;
    let mut i: usize = 0;
    while i < selections.len()
        invariant
            i <= selections@.len(),
            players@ == setup_from(selections@, i as nat).0,
            controllers@ == setup_from(selections@, i as nat).1,
            ais@ == setup_from(selections@, i as nat).2,
            ais_skipped == setup_from(selections@, i as nat).3,
            ais_skipped <= i,
        decreases selections@.len() - i,
    {
        let x = selections[i];
        if x.ui.is_human_plugged_in() {
            if let Some(fighter) = x.fighter {
                players.push((fighter, x.team));
                controllers.push(i);
            }
        }
        if x.ui.is_cpu() {
            if let Some(fighter) = x.fighter {
                players.push((fighter, x.team));
                controllers.push(i - ais_skipped);
                ais.push(0);
            } else {
                ais_skipped = ais_skipped + 1;
            }
        }
        i = i + 1;
        proof {
            lemma_skipped_bound(selections@, i as nat);
        }
    }
    (players, controllers, ais)
}

} // verus!
