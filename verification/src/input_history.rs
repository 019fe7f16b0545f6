//! The game's record of controller input: the inputs of every frame played,
//! the inputs of the current frame, and the windows of recent frames that
//! each player's input is read from, locally and over netplay.
//!
//! A controller's analog values are carried as `A`, which this library
//! does not interpret.

use vstd::prelude::*;
use crate::input::{Button, GcButtons};
use crate::network::{InputConfirm, Netplay, NetplayView, StateView};

verus! {

/// One controller's input on one frame.
#[derive(Clone, Copy, Debug)]
pub struct ControllerInput<A> {
    pub plugged_in: bool,
    pub buttons: GcButtons,
    pub analog: A,
}

/// No button held.
pub open spec fn no_buttons() -> GcButtons {
    GcButtons {
        up: false,
        down: false,
        right: false,
        left: false,
        y: false,
        x: false,
        b: false,
        a: false,
        l: false,
        r: false,
        z: false,
        start: false,
    }
}

impl<A: Copy> ControllerInput<A> {
    /// A controller that is not plugged in, with the analog values `analog`.
    pub fn empty(analog: A) -> (c: Self)
        ensures
            c == (ControllerInput { plugged_in: false, buttons: no_buttons(), analog }),
    {
        ControllerInput {
            plugged_in: false,
            buttons: GcButtons {
                up: false,
                down: false,
                right: false,
                left: false,
                y: false,
                x: false,
                b: false,
                a: false,
                l: false,
                r: false,
                z: false,
                start: false,
            },
            analog,
        }
    }
}

/// The frames of a history as sequences.
pub open spec fn frames_view<T>(s: Seq<Vec<T>>) -> Seq<Seq<T>> {
    s.map_values(|f: Vec<T>| f@)
}

/// The input of controller `c` on frame `frame_i` of `game`: missing frames
/// after the end repeat the last frame, missing controllers and frames
/// before the start are `empty`.
pub open spec fn frame_input<T>(game: Seq<Seq<T>>, c: int, frame_i: int, empty: T) -> T {
    if frame_i < 0 {
        empty
    } else {
        let controllers = if frame_i < game.len() {
            game[frame_i]
        } else if game.len() > 0 {
            game.last()
        } else {
            Seq::empty()
        };
        if c < controllers.len() {
            controllers[c]
        } else {
            empty
        }
    }
}

/// The inputs of controller `c` on the eight frames before `frame`, the
/// latest first.
pub open spec fn window<T>(game: Seq<Seq<T>>, c: int, frame: int, empty: T) -> Seq<T> {
    Seq::new(8, |k: int| frame_input(game, c, frame - 1 - k, empty))
}

/// The input windows of the first `n` controllers.
pub open spec fn windows<T>(game: Seq<Seq<T>>, n: nat, frame: int, empty: T) -> Seq<Seq<T>> {
    Seq::new(n, |c: int| window(game, c, frame, empty))
}

/// The windows of a peer's confirmed inputs, for the controllers of its
/// last confirmed frame.
pub open spec fn peer_windows<T>(peer: Seq<Seq<T>>, frame: int, empty: T) -> Seq<Seq<T>> {
    windows(
        peer,
        if peer.len() > 0 {
            peer.last().len()
        } else {
            0
        },
        frame,
        empty,
    )
}

/// The eight frames of input of controller `controller_i` before `frame`,
/// the latest first; frames and controllers that are missing are filled in
/// (see `frame_input`).
pub fn get_8frames_of_input<A: Copy>(
    game_inputs: &[Vec<ControllerInput<A>>],
    controller_i: usize,
    frame: i64,
    empty: ControllerInput<A>,
) -> (r: Vec<ControllerInput<A>>)
    requires
        frame >= i64::MIN + 8,
    ensures
        r@ == window(frames_view(game_inputs@), controller_i as int, frame as int, empty),
{
    let ghost game = frames_view(game_inputs@);
    let mut result: Vec<ControllerInput<A>> = Vec::new();
    let mut k: i64 = 0;
    while k < 8
        invariant
            0 <= k <= 8,
            frame >= i64::MIN + 8,
            game == frames_view(game_inputs@),
            result@.len() == k,
            forall|m: int|
                0 <= m < k ==> #[trigger] result@[m] == frame_input(game, controller_i as int, frame - 1 - m, empty),
        decreases 8 - k,
    {
        let frame_i = frame - 1 - k;
        let value = if frame_i < 0 {
            empty
        } else {
            let n = game_inputs.len();
            let controllers: &[ControllerInput<A>] = if (frame_i as u64) < (n as u64) {
                game_inputs[frame_i as usize].as_slice()
            } else if n > 0 {
                game_inputs[n - 1].as_slice()
            } else {
                &[]
            };
            proof {
                if frame_i < n {
                    assert(game[frame_i as int] == game_inputs@[frame_i as int]@);
                } else if n > 0 {
                    assert(game.last() == game_inputs@[n - 1]@);
                }
            }
            if controller_i < controllers.len() {
                controllers[controller_i]
            } else {
                empty
            }
        };
        result.push(value);
        k = k + 1;
    }
    assert(result@ =~= window(game, controller_i as int, frame as int, empty));
    result
}

/// The input windows of every player on frame `frame`: the local
/// controllers' (`current_len` of them) from the frames played, and, while
/// a session runs, the peer's from its confirmed inputs at the session's
/// frame; the player with the lower index comes first.
pub open spec fn spec_players<A>(
    game: Seq<Seq<ControllerInput<A>>>,
    current_len: nat,
    frame: int,
    nv: NetplayView<ControllerInput<A>>,
    empty: ControllerInput<A>,
) -> Seq<Seq<ControllerInput<A>>> {
    let local = windows(game, current_len, frame, empty);
    match nv.state {
        StateView::Running { frame: session_frame } => {
            let peer = peer_windows(nv.confirmed[0], session_frame as int, empty);
            if nv.index == 0 {
                local + peer
            } else {
                peer + local
            }
        },
        _ => local,
    }
}

fn windows_exec<A: Copy>(
    game_inputs: &Vec<Vec<ControllerInput<A>>>,
    n: usize,
    frame: i64,
    empty: ControllerInput<A>,
) -> (r: Vec<Vec<ControllerInput<A>>>)
    requires
        frame >= 0,
    ensures
        frames_view(r@) == windows(frames_view(game_inputs@), n as nat, frame as int, empty),
{
    let mut r: Vec<Vec<ControllerInput<A>>> = Vec::new();
    let mut c: usize = 0;
    while c < n
        invariant
            c <= n,
            frame >= 0,
            r@.len() == c,
            forall|k: int|
                0 <= k < c ==> (#[trigger] r@[k])@ == window(frames_view(game_inputs@), k, frame as int, empty),
        decreases n - c,
    {
        r.push(get_8frames_of_input(game_inputs.as_slice(), c, frame, empty));
        c = c + 1;
    }
    assert(frames_view(r@) =~= windows(frames_view(game_inputs@), n as nat, frame as int, empty));
    r
}

/// The buttons of a player this frame: whether each is held, and whether it
/// was pressed this frame.
#[derive(Clone, Copy, Debug, PartialEq, Eq, Structural)]
pub struct PlayerButtons {
    pub plugged_in: bool,
    pub up: Button,
    pub down: Button,
    pub right: Button,
    pub left: Button,
    pub y: Button,
    pub x: Button,
    pub b: Button,
    pub a: Button,
    pub l: Button,
    pub r: Button,
    pub z: Button,
    pub start: Button,
}

/// A button held now, and pressed when it was not held the frame before.
pub open spec fn button(now: bool, before: bool) -> Button {
    Button { value: now, press: now && !before }
}

/// The buttons of a player whose input window is `w` (latest frame first):
/// nothing for an unplugged controller.
pub open spec fn spec_player_buttons<A>(w: Seq<ControllerInput<A>>) -> PlayerButtons {
    if w[0].plugged_in {
        let n = w[0].buttons;
        let p = w[1].buttons;
        PlayerButtons {
            plugged_in: true,
            up: button(n.up, p.up),
            down: button(n.down, p.down),
            right: button(n.right, p.right),
            left: button(n.left, p.left),
            y: button(n.y, p.y),
            x: button(n.x, p.x),
            b: button(n.b, p.b),
            a: button(n.a, p.a),
            l: button(n.l, p.l),
            r: button(n.r, p.r),
            z: button(n.z, p.z),
            start: button(n.start, p.start),
        }
    } else {
        PlayerButtons {
            plugged_in: false,
            up: button(false, false),
            down: button(false, false),
            right: button(false, false),
            left: button(false, false),
            y: button(false, false),
            x: button(false, false),
            b: button(false, false),
            a: button(false, false),
            l: button(false, false),
            r: button(false, false),
            z: button(false, false),
            start: button(false, false),
        }
    }
}

fn button_of(now: bool, before: bool) -> (b: Button)
    ensures
        b == button(now, before),
{
    Button { value: now, press: now && !before }
}

/// The buttons of a player whose input window is `inputs` (latest frame
/// first).
pub fn player_buttons<A: Copy>(inputs: &[ControllerInput<A>]) -> (p: PlayerButtons)
    requires
        inputs@.len() >= 2,
    ensures
        p == spec_player_buttons(inputs@),
{
    if inputs[0].plugged_in {
        let n = inputs[0].buttons;
        let q = inputs[1].buttons;
        PlayerButtons {
            plugged_in: true,
            up: button_of(n.up, q.up),
            down: button_of(n.down, q.down),
            right: button_of(n.right, q.right),
            left: button_of(n.left, q.left),
            y: button_of(n.y, q.y),
            x: button_of(n.x, q.x),
            b: button_of(n.b, q.b),
            a: button_of(n.a, q.a),
            l: button_of(n.l, q.l),
            r: button_of(n.r, q.r),
            z: button_of(n.z, q.z),
            start: button_of(n.start, q.start),
        }
    } else {
        PlayerButtons {
            plugged_in: false,
            up: button_of(false, false),
            down: button_of(false, false),
            right: button_of(false, false),
            left: button_of(false, false),
            y: button_of(false, false),
            x: button_of(false, false),
            b: button_of(false, false),
            a: button_of(false, false),
            l: button_of(false, false),
            r: button_of(false, false),
            z: button_of(false, false),
            start: button_of(false, false),
        }
    }
}

/// The inputs of every frame played, and of the current frame.
pub struct InputHistory<A> {
    /// For every frame played, the input of each controller.
    pub game_inputs: Vec<Vec<ControllerInput<A>>>,
    /// The input of each controller this frame.
    pub current_inputs: Vec<ControllerInput<A>>,
    /// Whether start was held on the frame before this one.
    pub prev_start: bool,
}

/// Whether a controller holds start.
pub open spec fn any_start<A>(s: Seq<ControllerInput<A>>) -> bool {
    exists|i: int| 0 <= i < s.len() && (#[trigger] s[i]).buttons.start
}

/// Whether a controller holds a, l, r and start together.
pub open spec fn any_quit_combination<A>(s: Seq<ControllerInput<A>>) -> bool {
    exists|i: int|
        0 <= i < s.len() && (#[trigger] s[i]).buttons.a && s[i].buttons.l && s[i].buttons.r
            && s[i].buttons.start
}

/// How many frames of history stay when frame `frame` is played again: the
/// frames before it, counting from one.
pub open spec fn kept_frames(len: nat, frame: nat) -> nat {
    if frame > len {
        len
    } else if frame == 0 {
        0
    } else {
        (frame - 1) as nat
    }
}

/// The inputs that come from the game's own controllers and programs this
/// frame: the devices' inputs then the AI's; while offline, scripted inputs
/// replace the first ones.
pub open spec fn merged_inputs<A>(
    device: Seq<ControllerInput<A>>,
    tas: Seq<ControllerInput<A>>,
    ai: Seq<ControllerInput<A>>,
    offline: bool,
) -> Seq<ControllerInput<A>> {
    let all = device + ai;
    if offline {
        Seq::new(all.len(), |i: int| if i < tas.len() { tas[i] } else { all[i] })
    } else {
        all
    }
}

impl<A: Copy> InputHistory<A> {
    /// No frame played and no controller.
    pub fn new() -> (h: Self)
        ensures
            h.game_inputs@.len() == 0,
            h.current_inputs@.len() == 0,
            !h.prev_start,
    {
        InputHistory { game_inputs: Vec::new(), current_inputs: Vec::new(), prev_start: false }
    }

    /// Forgets the frames played.
    pub fn reset_history(&mut self)
        ensures
            final(self).game_inputs@.len() == 0,
            !final(self).prev_start,
            final(self).current_inputs@ == old(self).current_inputs@,
    {
        self.game_inputs = Vec::new();
        self.prev_start = false;
    }

    /// Replaces the frames played by `history`.
    pub fn set_history(&mut self, history: Vec<Vec<ControllerInput<A>>>)
        ensures
            final(self).game_inputs@ == history@,
            final(self).current_inputs@ == old(self).current_inputs@,
            final(self).prev_start == old(self).prev_start,
    {
        self.game_inputs = history;
    }

    /// A copy of the frames played.
    pub fn get_history(&self) -> (h: Vec<Vec<ControllerInput<A>>>)
        ensures
            frames_view(h@) == frames_view(self.game_inputs@),
    {
        let mut h: Vec<Vec<ControllerInput<A>>> = Vec::new();
        let mut i: usize = 0;
        while i < self.game_inputs.len()
            invariant
                i <= self.game_inputs@.len(),
                h@.len() == i,
                forall|k: int| 0 <= k < i ==> (#[trigger] h@[k])@ == self.game_inputs@[k]@,
            decreases self.game_inputs@.len() - i,
        {
            let frame = &self.game_inputs[i];
            let mut copy: Vec<ControllerInput<A>> = Vec::new();
            let mut j: usize = 0;
            while j < frame.len()
                invariant
                    j <= frame@.len(),
                    copy@ == frame@.take(j as int),
                decreases frame@.len() - j,
            {
                copy.push(frame[j]);
                j = j + 1;
                assert(copy@ =~= frame@.take(j as int));
            }
            assert(copy@ =~= frame@);
            h.push(copy);
            i = i + 1;
        }
        assert(frames_view(h@) =~= frames_view(self.game_inputs@));
        h
    }

    /// Records this frame's inputs as frame `frame` of a local game: frames
    /// from that one on, if recorded before, are forgotten first.
    pub fn game_update(&mut self, frame: usize)
        ensures
            frames_view(final(self).game_inputs@) == frames_view(old(self).game_inputs@).take(
                kept_frames(old(self).game_inputs@.len(), frame as nat) as int,
            ).push(old(self).current_inputs@),
            final(self).current_inputs@ == old(self).current_inputs@,
            final(self).prev_start == old(self).prev_start,
    {
        let ghost old_game = self.game_inputs@;
        let len = self.game_inputs.len();
        let keep = if frame > len {
            len
        } else if frame == 0 {
            0
        } else {
            frame - 1
        };
        self.game_inputs.truncate(keep);
        let current = self.copy_current();
        self.game_inputs.push(current);
        assert(frames_view(self.game_inputs@) =~= frames_view(old_game).take(keep as int).push(
            old(self).current_inputs@,
        ));
    }

    fn copy_current(&self) -> (c: Vec<ControllerInput<A>>)
        ensures
            c@ == self.current_inputs@,
    {
        let mut c: Vec<ControllerInput<A>> = Vec::new();
        let mut j: usize = 0;
        while j < self.current_inputs.len()
            invariant
                j <= self.current_inputs@.len(),
                c@ == self.current_inputs@.take(j as int),
            decreases self.current_inputs@.len() - j,
        {
            c.push(self.current_inputs[j]);
            j = j + 1;
            assert(c@ =~= self.current_inputs@.take(j as int));
        }
        assert(c@ =~= self.current_inputs@);
        c
    }

    /// Records this frame's inputs after the frames played, as netplay does.
    pub fn netplay_update(&mut self)
        ensures
            frames_view(final(self).game_inputs@) == frames_view(old(self).game_inputs@).push(
                old(self).current_inputs@,
            ),
            final(self).current_inputs@ == old(self).current_inputs@,
            final(self).prev_start == old(self).prev_start,
    {
        let current = self.copy_current();
        self.game_inputs.push(current);
        assert(frames_view(self.game_inputs@) =~= frames_view(old(self).game_inputs@).push(
            old(self).current_inputs@,
        ));
    }

    /// The index of the last frame recorded.
    pub fn last_frame(&self) -> (f: usize)
        requires
            self.game_inputs@.len() >= 1,
        ensures
            f == self.game_inputs@.len() - 1,
    {
        self.game_inputs.len() - 1
    }

    /// Whether start was pressed this frame: held now and not the frame before.
    pub fn start_pressed(&self) -> (r: bool)
        ensures
            r == (!self.prev_start && any_start(self.current_inputs@)),
    {
        !self.prev_start && Self::start_held(&self.current_inputs)
    }

    fn start_held(inputs: &Vec<ControllerInput<A>>) -> (r: bool)
        ensures
            r == any_start(inputs@),
    {
        let mut i: usize = 0;
        while i < inputs.len()
            invariant
                i <= inputs@.len(),
                forall|k: int| 0 <= k < i ==> !(#[trigger] inputs@[k]).buttons.start,
            decreases inputs@.len() - i,
        {
            if inputs[i].buttons.start {
                return true;
            }
            i = i + 1;
        }
        false
    }

    /// Whether a controller holds the combination that quits the game (a, l,
    /// r and start) and start was pressed this frame.
    pub fn game_quit_held(&self) -> (r: bool)
        ensures
            r == (any_quit_combination(self.current_inputs@) && !self.prev_start && any_start(
                self.current_inputs@,
            )),
    {
        let mut held = false;
        let mut i: usize = 0;
        while i < self.current_inputs.len()
            invariant
                i <= self.current_inputs@.len(),
                held == exists|k: int|
                    0 <= k < i && (#[trigger] self.current_inputs@[k]).buttons.a
                        && self.current_inputs@[k].buttons.l && self.current_inputs@[k].buttons.r
                        && self.current_inputs@[k].buttons.start,
            decreases self.current_inputs@.len() - i,
        {
            let b = self.current_inputs[i].buttons;
            if b.a && b.l && b.r && b.start {
                held = true;
            }
            i = i + 1;
        }
        held && self.start_pressed()
    }

    /// The input windows of every player on frame `frame` (see
    /// `spec_players`); `empty` stands for a missing input.
    pub fn players_no_log(
        &self,
        frame: usize,
        netplay: &Netplay<ControllerInput<A>>,
        empty: ControllerInput<A>,
    ) -> (r: Vec<Vec<ControllerInput<A>>>)
        requires
            frame <= i64::MAX,
            netplay@.state matches StateView::Running { frame: f } ==> f <= i64::MAX
                && netplay@.confirmed.len() >= 1 && netplay@.index < 2,
        ensures
            frames_view(r@) == spec_players(
                frames_view(self.game_inputs@),
                self.current_inputs@.len(),
                frame as int,
                netplay@,
                empty,
            ),
    {
        let mut local = windows_exec(&self.game_inputs, self.current_inputs.len(), frame as i64, empty);
        if netplay.number_of_peers() == 1 {
            return local;
        }
        let peer_inputs = netplay.confirmed_of(0);
        assert(frames_view(peer_inputs@) == netplay@.confirmed[0]);
        let n = if peer_inputs.len() > 0 {
            peer_inputs[peer_inputs.len() - 1].len()
        } else {
            0
        };
        proof {
            if peer_inputs@.len() > 0 {
                assert(netplay@.confirmed[0].last() == peer_inputs@.last()@);
            }
        }
        let mut peer = windows_exec(peer_inputs, n, netplay.frame() as i64, empty);
        let ghost lv = frames_view(local@);
        let ghost pv = frames_view(peer@);
        if netplay.local_index() == 0 {
            local.append(&mut peer);
            assert(frames_view(local@) =~= lv + pv);
            local
        } else {
            peer.append(&mut local);
            assert(frames_view(peer@) =~= pv + lv);
            peer
        }
    }

    /// Takes this frame's inputs: `device` from the controllers, then `ai`
    /// from the CPU players; while offline, `tas` replaces the first ones.
    /// Returns the message that sends the controllers' inputs to the
    /// netplay peer, unless the local side waits for it this frame.
    pub fn step_inputs(
        &mut self,
        device: Vec<ControllerInput<A>>,
        tas: &[ControllerInput<A>],
        ai: &[ControllerInput<A>],
        netplay: &Netplay<ControllerInput<A>>,
    ) -> (m: Option<InputConfirm<ControllerInput<A>>>)
        ensures
            final(self).current_inputs@ == merged_inputs(
                device@,
                tas@,
                ai@,
                netplay@.state is Offline,
            ),
            final(self).prev_start == any_start(old(self).current_inputs@),
            frames_view(final(self).game_inputs@) == frames_view(old(self).game_inputs@),
            crate::network::spec_skip_frame(netplay@) ==> m is None,
            !crate::network::spec_skip_frame(netplay@) ==> match netplay@.state {
                StateView::Running { frame } => m matches Some(c) && c@.inputs == device@
                    && c@.frame == frame,
                _ => m is None,
            },
    {
        let skip = netplay.skip_frame();
        let mut inputs: Vec<ControllerInput<A>> = Vec::new();
        let mut i: usize = 0;
        while i < device.len()
            invariant
                i <= device@.len(),
                inputs@ == device@.take(i as int),
            decreases device@.len() - i,
        {
            inputs.push(device[i]);
            i = i + 1;
            assert(inputs@ =~= device@.take(i as int));
        }
        assert(inputs@ =~= device@);
        let message = if skip {
            None
        } else {
            netplay.send_controller_inputs(device)
        };
        let mut j: usize = 0;
        while j < ai.len()
            invariant
                j <= ai@.len(),
                inputs@ == device@ + ai@.take(j as int),
            decreases ai@.len() - j,
        {
            inputs.push(ai[j]);
            j = j + 1;
            assert(inputs@ =~= device@ + ai@.take(j as int));
        }
        assert(ai@.take(ai@.len() as int) =~= ai@);
        let offline = matches!(netplay.state(), crate::network::NetplayState::Offline);
        let ghost all = inputs@;
        if offline {
            let mut k: usize = 0;
            while k < tas.len() && k < inputs.len()
                invariant
                    k <= tas@.len(),
                    inputs@.len() == all.len(),
                    forall|m: int| 0 <= m < k && m < all.len() ==> #[trigger] inputs@[m] == tas@[m],
                    forall|m: int| k <= m < all.len() ==> #[trigger] inputs@[m] == all[m],
                decreases tas@.len() - k,
            {
                inputs.set(k, tas[k]);
                k = k + 1;
            }
            assert(inputs@ =~= merged_inputs(device@, tas@, ai@, true));
        }
        self.prev_start = Self::start_held(&self.current_inputs);
        self.current_inputs = inputs;
        message
    }
}


/// Whether `b` reads a button that is held `now` and was held `before`: it
/// is on when held now, and pressed when it was not held the frame before.
pub open spec fn reads_button(b: Button, now: bool, before: bool) -> bool {
    b.value == now && b.press == (now && !before)
}

/// Each button of a plugged-in player reads that same button of the latest
/// two frames of its window; an unplugged player has no button on or
/// pressed.
pub proof fn law_each_button_reads_its_own_button<A>(w: Seq<ControllerInput<A>>)
    requires
        w.len() >= 2,
    ensures
        spec_player_buttons(w).plugged_in == w[0].plugged_in,
        w[0].plugged_in ==> {
            let p = spec_player_buttons(w);
            let n = w[0].buttons;
            let b = w[1].buttons;
            &&& reads_button(p.up, n.up, b.up)
            &&& reads_button(p.down, n.down, b.down)
            &&& reads_button(p.right, n.right, b.right)
            &&& reads_button(p.left, n.left, b.left)
            &&& reads_button(p.y, n.y, b.y)
            &&& reads_button(p.x, n.x, b.x)
            &&& reads_button(p.b, n.b, b.b)
            &&& reads_button(p.a, n.a, b.a)
            &&& reads_button(p.l, n.l, b.l)
            &&& reads_button(p.r, n.r, b.r)
            &&& reads_button(p.z, n.z, b.z)
            &&& reads_button(p.start, n.start, b.start)
        },
        !w[0].plugged_in ==> {
            let p = spec_player_buttons(w);
            &&& reads_button(p.up, false, false)
            &&& reads_button(p.down, false, false)
            &&& reads_button(p.right, false, false)
            &&& reads_button(p.left, false, false)
            &&& reads_button(p.y, false, false)
            &&& reads_button(p.x, false, false)
            &&& reads_button(p.b, false, false)
            &&& reads_button(p.a, false, false)
            &&& reads_button(p.l, false, false)
            &&& reads_button(p.r, false, false)
            &&& reads_button(p.z, false, false)
            &&& reads_button(p.start, false, false)
        },
{
}

} // verus!
