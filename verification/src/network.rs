//! The decisions of a two-player netplay session. The caller owns the
//! socket and the clock: it hands received messages to `Netplay::receive`,
//! calls `Netplay::step` once a frame and sends what the step asks for.
//!
//! Message formats (the first byte tells them apart):
//! - initiate connection: `0x01`, then the serialized `InitConnection`
//! - ping request: `0x02`, then the ping id
//! - ping response: `0x03`, then the ping id
//! - controller inputs: `0x04`, then the serialized `InputConfirm`
//! - disconnect notification: `0xAA`

use vstd::prelude::*;
use crate::text::{chars_of, string_from_chars};

verus! {

/// The number of pings of a ping test.
pub const PING_COUNT: usize = 255;

/// The pings of a ping test that count towards the average; the most recent
/// ones are left out so that packets still in flight do not count as dropped.
pub const PINGS_COUNTED: usize = 225;

/// What a ping that was never answered adds to the ping total, in nanoseconds.
pub const DROPPED_PING_NANOS: u64 = 200_000_000;

/// What each side sends when connecting.
pub struct InitConnection {
    pub build_version: String,
    pub hash: String,
    /// Decides which side is player one.
    pub random: u64,
}

/// `rand::thread_rng().gen::<u64>()`: a number from the thread's random
/// generator. Nothing is claimed of its value.
#[verifier::external_body]
fn random_u64() -> (r: u64) {
    rand::Rng::gen::<u64>(&mut rand::thread_rng())
}

/// A connection request as values.
pub struct InitView {
    pub build_version: Seq<char>,
    pub hash: Seq<char>,
    pub random: u64,
}

impl View for InitConnection {
    type V = InitView;

    open spec fn view(&self) -> InitView {
        InitView { build_version: self.build_version@, hash: self.hash@, random: self.random }
    }
}

fn copy_string(s: &String) -> (r: String)
    ensures
        r@ == s@,
{
    string_from_chars(&chars_of(s.as_str()))
}

impl InitConnection {
    /// An independent copy of this request.
    pub fn copy_init(&self) -> (r: InitConnection)
        ensures
            r@ == self@,
    {
        InitConnection {
            build_version: copy_string(&self.build_version),
            hash: copy_string(&self.hash),
            random: self.random,
        }
    }
}

/// When a ping was sent and when its answer arrived, in nanoseconds of the
/// caller's monotonic clock.
#[derive(Clone, Copy, Debug, PartialEq, Eq, Structural)]
pub struct Ping {
    pub time_sent: Option<u64>,
    pub time_received: Option<u64>,
}

impl Ping {
    /// A ping that was not sent yet.
    pub fn default_ping() -> (p: Ping)
        ensures
            p.time_sent is None,
            p.time_received is None,
    {
        Ping { time_sent: None, time_received: None }
    }
}

/// The controller inputs of one frame of a peer.
pub struct InputConfirm<I> {
    pub inputs: Vec<I>,
    pub frame: usize,
}

/// A peer's inputs as values.
pub struct ConfirmView<I> {
    pub inputs: Seq<I>,
    pub frame: usize,
}

impl<I> View for InputConfirm<I> {
    type V = ConfirmView<I>;

    open spec fn view(&self) -> ConfirmView<I> {
        ConfirmView { inputs: self.inputs@, frame: self.frame }
    }
}

/// Where a session is.
///
/// Possible sequences: Offline -> InitConnection -> Disconnected -> Offline,
/// and Offline -> InitConnection -> PingTest -> Running -> Disconnected ->
/// Offline; disconnecting can happen at any point, on request of either side.
pub enum NetplayState {
    Offline,
    InitConnection(InitConnection),
    Disconnected { reason: String },
    /// `pings` has `PING_COUNT` entries, indexed by ping id.
    PingTest { pings: Vec<Ping> },
    Running { frame: usize },
}

/// A session state as values.
pub enum StateView {
    Offline,
    InitConnection(InitView),
    Disconnected { reason: Seq<char> },
    PingTest { pings: Seq<Ping> },
    Running { frame: usize },
}

impl View for NetplayState {
    type V = StateView;

    open spec fn view(&self) -> StateView {
        match self {
            NetplayState::Offline => StateView::Offline,
            NetplayState::InitConnection(i) => StateView::InitConnection(i@),
            NetplayState::Disconnected { reason } => StateView::Disconnected { reason: reason@ },
            NetplayState::PingTest { pings } => StateView::PingTest { pings: pings@ },
            NetplayState::Running { frame } => StateView::Running { frame: *frame },
        }
    }
}

/// The kinds of message a peer sends.
#[derive(Clone, Copy, Debug, PartialEq, Eq, Structural)]
pub enum MessageKind {
    InitConnection,
    PingRequest,
    PingResponse,
    ControllerInputs,
    Disconnect,
}

/// The kind of a message from its first byte; `None` for a byte that
/// starts no known message.
pub fn message_kind(first: u8) -> (k: Option<MessageKind>)
    ensures
        k == if first == 0x01 {
            Some(MessageKind::InitConnection)
        } else if first == 0x02 {
            Some(MessageKind::PingRequest)
        } else if first == 0x03 {
            Some(MessageKind::PingResponse)
        } else if first == 0x04 {
            Some(MessageKind::ControllerInputs)
        } else if first == 0xAA {
            Some(MessageKind::Disconnect)
        } else {
            None::<MessageKind>
        },
{
    if first == 0x01 {
        Some(MessageKind::InitConnection)
    } else if first == 0x02 {
        Some(MessageKind::PingRequest)
    } else if first == 0x03 {
        Some(MessageKind::PingResponse)
    } else if first == 0x04 {
        Some(MessageKind::ControllerInputs)
    } else if first == 0xAA {
        Some(MessageKind::Disconnect)
    } else {
        None
    }
}

/// The first byte of messages of kind `k`.
pub open spec fn spec_kind_byte(k: MessageKind) -> u8 {
    match k {
        MessageKind::InitConnection => 0x01,
        MessageKind::PingRequest => 0x02,
        MessageKind::PingResponse => 0x03,
        MessageKind::ControllerInputs => 0x04,
        MessageKind::Disconnect => 0xAA,
    }
}

/// The message of kind `k` whose body is `body`.
pub fn frame_message(k: MessageKind, body: &Vec<u8>) -> (m: Vec<u8>)
    ensures
        m@ == seq![spec_kind_byte(k)] + body@,
{
    let mut m: Vec<u8> = Vec::new();
    let first: u8 = match k {
        MessageKind::InitConnection => 0x01,
        MessageKind::PingRequest => 0x02,
        MessageKind::PingResponse => 0x03,
        MessageKind::ControllerInputs => 0x04,
        MessageKind::Disconnect => 0xAA,
    };
    m.push(first);
    let mut i: usize = 0;
    while i < body.len()
        invariant
            i <= body.len(),
            m@ == seq![first] + body@.take(i as int),
        decreases body.len() - i,
    {
        m.push(body[i]);
        i = i + 1;
        proof {
            assert(m@ =~= seq![first] + body@.take(i as int));
        }
    }
    assert(body@.take(body@.len() as int) =~= body@);
    m
}

/// A message received from the peer, with its body decoded.
pub enum Incoming<I> {
    InitConnection(InitConnection),
    PingRequest(u8),
    PingResponse(u8),
    ControllerInputs(InputConfirm<I>),
    Disconnect,
}

/// What the caller sends after a step.
pub enum StepAction {
    Nothing,
    /// Send this connection request (message `0x01`).
    SendInit(InitConnection),
    /// Send a ping request with this id (message `0x02`).
    SendPingRequest(u8),
    /// Every ping of the ping test was sent; the counted pings took this
    /// long in total. The caller judges the average and then calls
    /// `Netplay::ping_test_passed` or `Netplay::ping_test_failed`.
    PingTestDone { total_nanos: u128 },
}

/// The time a ping contributes to the ping total: how long its answer took
/// (nothing if the clock went backwards), or a penalty if it was dropped.
pub open spec fn ping_nanos(p: Ping) -> nat {
    match p.time_sent {
        Some(sent) => match p.time_received {
            Some(received) => if received >= sent {
                (received - sent) as nat
            } else {
                0
            },
            None => DROPPED_PING_NANOS as nat,
        },
        None => DROPPED_PING_NANOS as nat,
    }
}

/// The time the first `n` pings contribute.
pub open spec fn ping_total(pings: Seq<Ping>, n: int) -> nat
    decreases n,
{
    if n <= 0 {
        0
    } else {
        ping_total(pings, n - 1) + ping_nanos(pings[n - 1])
    }
}

/// The id of the first ping that was not sent yet, if any.
pub open spec fn first_unsent(pings: Seq<Ping>) -> Option<int> {
    if exists|k: int| 0 <= k < pings.len() && pings[k].time_sent is None {
        Some(
            choose|k: int|
                0 <= k < pings.len() && pings[k].time_sent is None && forall|j: int|
                    0 <= j < k ==> pings[j].time_sent is Some,
        )
    } else {
        None
    }
}

/// Whether ping `k` is among the answered ping ids `answers`.
pub open spec fn answered(answers: Seq<u8>, k: int) -> bool {
    0 <= k < 256 && answers.contains(k as u8)
}

/// The pings after sending ping `n` and receiving the answers `answers`,
/// both at time `now`.
pub open spec fn pings_after_send(pings: Seq<Ping>, n: int, answers: Seq<u8>, now: u64) -> Seq<
    Ping,
> {
    Seq::new(
        pings.len(),
        |k: int|
            Ping {
                time_sent: if k == n {
                    Some(now)
                } else {
                    pings[k].time_sent
                },
                time_received: if answered(answers, k) {
                    Some(now)
                } else {
                    pings[k].time_received
                },
            },
    )
}

/// One pass over the received inputs: in order, each message for the frame
/// after the confirmed ones (`len` of them) is confirmed. Returns the
/// confirmed inputs and the messages that remain, in order.
pub open spec fn confirm_pass<I>(len: nat, msgs: Seq<ConfirmView<I>>) -> (Seq<Seq<I>>, Seq<
    ConfirmView<I>,
>)
    decreases msgs.len(),
{
    if msgs.len() == 0 {
        (seq![], seq![])
    } else {
        let m = msgs[0];
        if m.frame == len {
            let p = confirm_pass(len + 1, msgs.drop_first());
            (seq![m.inputs] + p.0, p.1)
        } else {
            let p = confirm_pass(len, msgs.drop_first());
            (p.0, seq![m] + p.1)
        }
    }
}

/// A pass keeps or confirms every message, and keeps them all when it
/// confirms none.
pub proof fn lemma_confirm_pass_len<I>(len: nat, msgs: Seq<ConfirmView<I>>)
    ensures
        confirm_pass(len, msgs).0.len() + confirm_pass(len, msgs).1.len() == msgs.len(),
        confirm_pass(len, msgs).0.len() == 0 ==> confirm_pass(len, msgs).1 == msgs,
    decreases msgs.len(),
{
    if msgs.len() > 0 {
        let m = msgs[0];
        if m.frame == len {
            lemma_confirm_pass_len(len + 1, msgs.drop_first());
        } else {
            lemma_confirm_pass_len(len, msgs.drop_first());
            if confirm_pass(len, msgs).0.len() == 0 {
                assert(seq![m] + msgs.drop_first() =~= msgs);
            }
        }
    }
}

/// Passes over the received inputs until one confirms nothing more.
pub open spec fn confirm_all<I>(len: nat, msgs: Seq<ConfirmView<I>>) -> (Seq<Seq<I>>, Seq<
    ConfirmView<I>,
>)
    decreases msgs.len(),
{
    let p = confirm_pass(len, msgs);
    if p.0.len() == 0 {
        (seq![], msgs)
    } else {
        proof {
            lemma_confirm_pass_len(len, msgs);
        }
        let q = confirm_all(len + p.0.len(), p.1);
        (p.0 + q.0, q.1)
    }
}

/// The fewest frames any peer has confirmed, or 1 without peers.
pub open spec fn input_frames<I>(peers: Seq<Seq<Seq<I>>>) -> nat
    decreases peers.len(),
{
    if peers.len() == 0 {
        1
    } else if peers.len() == 1 {
        peers[0].len()
    } else {
        let m = input_frames(peers.drop_last());
        if peers.last().len() < m {
            peers.last().len()
        } else {
            m
        }
    }
}

/// The ping test that starts once both sides agree: no ping sent yet.
pub open spec fn fresh_pings() -> Seq<Ping> {
    Seq::new(PING_COUNT as nat, |k: int| Ping { time_sent: None, time_received: None })
}

/// The state after the peer's connection request `peer` arrives while the
/// local side sends `local`: both sides must use the same package and the
/// same build.
pub open spec fn init_outcome(local: InitView, peer: InitView) -> StateView {
    if peer.hash != local.hash {
        StateView::Disconnected {
            reason: "Package hashes did not match, ensure everyone is using the same package."@,
        }
    } else if peer.build_version != local.build_version {
        StateView::Disconnected {
            reason: "Build versions did not match, ensure everyone is using the same PF Sandbox build."@,
        }
    } else {
        StateView::PingTest { pings: fresh_pings() }
    }
}

/// A netplay session as values.
pub struct NetplayView<I> {
    /// For every peer, for every confirmed frame, the inputs of each controller.
    pub confirmed: Seq<Seq<Seq<I>>>,
    pub seed: u64,
    pub state: StateView,
    pub index: usize,
    pub init_msgs: Seq<InitView>,
    pub ping_msgs: Seq<u8>,
    pub running_msgs: Seq<ConfirmView<I>>,
}

/// Whether the local side waits a frame for its peers to catch up.
pub open spec fn spec_skip_frame<I>(v: NetplayView<I>) -> bool {
    match v.state {
        StateView::Running { frame } => frame > input_frames(v.confirmed) + 1,
        _ => false,
    }
}

/// Whether a step can run: a ping test only records answers to pings it
/// has (ids below `PING_COUNT`), and a running session can count one more
/// frame and has a peer to confirm received inputs for.
pub open spec fn step_ready<I>(v: NetplayView<I>) -> bool {
    match v.state {
        StateView::PingTest { pings } => first_unsent(pings) is Some ==> forall|k: int|
            0 <= k < v.ping_msgs.len() ==> v.ping_msgs[k] < PING_COUNT,
        StateView::Running { frame } => frame < usize::MAX && (v.running_msgs.len() > 0
            ==> v.confirmed.len() >= 1),
        _ => true,
    }
}

/// The session after a step, as values, for the states that a step changes
/// without the caller's clock.
pub open spec fn running_after_step<I>(v: NetplayView<I>, frame: usize) -> NetplayView<I> {
    let c = confirm_all(
        if v.confirmed.len() > 0 {
            v.confirmed[0].len()
        } else {
            0
        },
        v.running_msgs,
    );
    NetplayView {
        state: StateView::Running {
            frame: if spec_skip_frame(v) {
                frame
            } else {
                (frame + 1) as usize
            },
        },
        confirmed: if v.running_msgs.len() == 0 {
            v.confirmed
        } else {
            v.confirmed.update(0, v.confirmed[0] + c.0)
        },
        running_msgs: c.1,
        ..v
    }
}

/// A two-player netplay session, without its socket.
pub struct Netplay<I> {
    confirmed_inputs: Vec<Vec<Vec<I>>>,
    seed: u64,
    state: NetplayState,
    index: usize,
    init_msgs: Vec<InitConnection>,
    ping_msgs: Vec<u8>,
    running_msgs: Vec<InputConfirm<I>>,
}

impl<I> View for Netplay<I> {
    type V = NetplayView<I>;

    closed spec fn view(&self) -> NetplayView<I> {
        NetplayView {
            confirmed: self.confirmed_inputs@.map_values(
                |p: Vec<Vec<I>>| p@.map_values(|f: Vec<I>| f@),
            ),
            seed: self.seed,
            state: self.state@,
            index: self.index,
            init_msgs: self.init_msgs@.map_values(|m: InitConnection| m@),
            ping_msgs: self.ping_msgs@,
            running_msgs: self.running_msgs@.map_values(|m: InputConfirm<I>| m@),
        }
    }
}

impl<I> Netplay<I> {
    /// A ping test has one entry per ping id.
    pub closed spec fn wf(&self) -> bool {
        self.state matches NetplayState::PingTest { pings } ==> pings@.len() == PING_COUNT
    }

    /// The inputs confirmed for peer `p`, frame by frame.
    pub fn confirmed_of(&self, p: usize) -> (r: &Vec<Vec<I>>)
        requires
            p < self@.confirmed.len(),
        ensures
            r@.map_values(|f: Vec<I>| f@) == self@.confirmed[p as int],
    {
        &self.confirmed_inputs[p]
    }

    /// An offline session.
    pub fn new() -> (n: Netplay<I>)
        ensures
            n.wf(),
            n@.state == StateView::Offline,
            n@.confirmed.len() == 0,
            n@.seed == 0,
            n@.index == 0,
            n@.init_msgs.len() == 0,
            n@.ping_msgs.len() == 0,
            n@.running_msgs.len() == 0,
    {
        let n = Netplay {
            confirmed_inputs: Vec::new(),
            seed: 0,
            state: NetplayState::Offline,
            index: 0,
            init_msgs: Vec::new(),
            ping_msgs: Vec::new(),
            running_msgs: Vec::new(),
        };
        assert(n@.confirmed =~= Seq::<Seq<Seq<I>>>::empty());
        assert(n@.init_msgs =~= Seq::<InitView>::empty());
        assert(n@.running_msgs =~= Seq::<ConfirmView<I>>::empty());
        n
    }

    /// The state of the session.
    pub fn state(&self) -> (s: &NetplayState)
        ensures
            s@ == self@.state,
    {
        &self.state
    }

    /// The index of the local machine among the peers.
    pub fn local_index(&self) -> (i: usize)
        ensures
            i == if self@.state is Running {
                self@.index
            } else {
                0
            },
    {
        match &self.state {
            NetplayState::Running { .. } => self.index,
            _ => 0,
        }
    }

    /// The number of peers, the local machine included.
    pub fn number_of_peers(&self) -> (n: usize)
        ensures
            n == if self@.state is Running {
                2usize
            } else {
                1usize
            },
    {
        match &self.state {
            NetplayState::Running { .. } => 2,
            _ => 1,
        }
    }

    fn input_frames_exec(&self) -> (n: usize)
        ensures
            n == input_frames(self@.confirmed),
    {
        let ghost peers = self@.confirmed;
        let count = self.confirmed_inputs.len();
        if count == 0 {
            return 1;
        }
        let mut m = self.confirmed_inputs[0].len();
        let mut i: usize = 1;
        while i < count
            invariant
                1 <= i <= count,
                count == self.confirmed_inputs@.len(),
                peers == self@.confirmed,
                m == input_frames(peers.take(i as int)),
            decreases count - i,
        {
            assert(peers.take(i + 1).drop_last() =~= peers.take(i as int));
            assert(peers[i as int].len() == self.confirmed_inputs@[i as int]@.len());
            let l = self.confirmed_inputs[i].len();
            if l < m {
                m = l;
            }
            i = i + 1;
        }
        assert(peers.take(count as int) =~= peers);
        m
    }

    /// The number of frames to simulate this frame, the current one
    /// included: from the oldest frame not confirmed by every peer.
    pub fn frames_to_step(&self) -> (n: usize)
        ensures
            n == match self@.state {
                StateView::Running { frame } => if frame > input_frames(self@.confirmed) + 1 {
                    (frame - input_frames(self@.confirmed)) as usize
                } else {
                    1usize
                },
                _ => 1usize,
            },
    {
        let input_frames = self.input_frames_exec();
        match &self.state {
            NetplayState::Running { frame } => {
                let frame = *frame;
                if frame > input_frames && frame - input_frames > 1 {
                    frame - input_frames
                } else {
                    1
                }
            },
            _ => 1,
        }
    }

    /// The current frame of a running session.
    pub fn frame(&self) -> (f: usize)
        requires
            self@.state is Running,
        ensures
            self@.state == (StateView::Running { frame: f }),
    {
        match &self.state {
            NetplayState::Running { frame } => *frame,
            _ => 0,
        }
    }

    /// Whether the local machine should do nothing for a frame so that its
    /// peers can catch up.
    pub fn skip_frame(&self) -> (r: bool)
        ensures
            r == spec_skip_frame(self@),
    {
        let input_frames = self.input_frames_exec();
        match &self.state {
            NetplayState::Running { frame } => *frame > input_frames && *frame - input_frames > 1,
            _ => false,
        }
    }

    /// The seed of every game of a running session: the random number of
    /// the peer that is player one.
    pub fn get_seed(&self) -> (r: Option<u64>)
        ensures
            r == if self@.state is Running {
                Some(self@.seed)
            } else {
                None::<u64>
            },
    {
        match &self.state {
            NetplayState::Running { .. } => Some(self.seed),
            _ => None,
        }
    }

    /// Starts connecting: sends `random`, `build_version` and `hash` to the
    /// peer from now on, and forgets the inputs and messages of any
    /// earlier session.
    pub fn connect(&mut self, random: u64, build_version: String, hash: String)
        requires
            old(self).wf(),
        ensures
            final(self).wf(),
            final(self)@.state == StateView::InitConnection(
                InitView { build_version: build_version@, hash: hash@, random },
            ),
            final(self)@.confirmed == seq![Seq::<Seq<I>>::empty()],
            final(self)@.seed == old(self)@.seed,
            final(self)@.index == old(self)@.index,
            final(self)@.init_msgs.len() == 0,
            final(self)@.ping_msgs.len() == 0,
            final(self)@.running_msgs.len() == 0,
    {
        self.state = NetplayState::InitConnection(InitConnection { random, build_version, hash });
        self.confirmed_inputs = Vec::new();
        self.confirmed_inputs.push(Vec::new());
        self.init_msgs = Vec::new();
        self.ping_msgs = Vec::new();
        self.running_msgs = Vec::new();
        assert(self@.confirmed[0] =~= Seq::<Seq<I>>::empty());
        assert(self@.confirmed =~= seq![Seq::<Seq<I>>::empty()]);
        assert(self@.init_msgs =~= Seq::<InitView>::empty());
        assert(self@.running_msgs =~= Seq::<ConfirmView<I>>::empty());
    }

    /// Starts connecting with a fresh random number from the thread's
    /// generator (see `connect`); which number comes out is left open.
    pub fn connect_random(&mut self, build_version: String, hash: String)
        requires
            old(self).wf(),
        ensures
            final(self).wf(),
            exists|random: u64|
                final(self)@.state == StateView::InitConnection(
                    InitView { build_version: build_version@, hash: hash@, random },
                ),
            final(self)@.confirmed == seq![Seq::<Seq<I>>::empty()],
            final(self)@.seed == old(self)@.seed,
            final(self)@.index == old(self)@.index,
            final(self)@.init_msgs.len() == 0,
            final(self)@.ping_msgs.len() == 0,
            final(self)@.running_msgs.len() == 0,
    {
        let random = random_u64();
        self.connect(random, build_version, hash);
    }

    /// The socket could not reach the peer; `reason` says why.
    pub fn connect_failed(&mut self, reason: String)
        ensures
            final(self).wf(),
            final(self)@ == (NetplayView { state: StateView::Disconnected { reason: reason@ }, ..old(self)@ }),
    {
        self.state = NetplayState::Disconnected { reason };
    }

    /// Ends the session at the local side's request. Returns whether the
    /// peer has to be told (message `0xAA`): not when already offline or
    /// disconnected.
    pub fn disconnect(&mut self) -> (notify: bool)
        requires
            old(self).wf(),
        ensures
            final(self).wf(),
            notify == !(old(self)@.state is Offline || old(self)@.state is Disconnected),
            notify ==> final(self)@ == (NetplayView {
                state: StateView::Disconnected { reason: "Disconnect requested by self"@ },
                ..old(self)@
            }),
            !notify ==> final(self)@ == old(self)@,
    {
        match &self.state {
            NetplayState::Offline => false,
            NetplayState::Disconnected { .. } => false,
            _ => {
                let reason = string_from_chars(&chars_of("Disconnect requested by self"));
                self.state = NetplayState::Disconnected { reason };
                true
            },
        }
    }

    /// Ends the session and goes offline. Returns whether the peer has to be
    /// told (message `0xAA`): not when already offline or disconnected, in
    /// which case nothing changes.
    pub fn disconnect_offline(&mut self) -> (notify: bool)
        requires
            old(self).wf(),
        ensures
            final(self).wf(),
            notify == !(old(self)@.state is Offline || old(self)@.state is Disconnected),
            notify ==> final(self)@ == (NetplayView { state: StateView::Offline, ..old(self)@ }),
            !notify ==> final(self)@ == old(self)@,
    {
        match &self.state {
            NetplayState::Offline => false,
            NetplayState::Disconnected { .. } => false,
            _ => {
                self.state = NetplayState::Offline;
                true
            },
        }
    }

    /// Goes offline without telling the peer.
    pub fn offline(&mut self)
        ensures
            final(self).wf(),
            final(self)@ == (NetplayView { state: StateView::Offline, ..old(self)@ }),
    {
        self.state = NetplayState::Offline;
    }

    /// The message to send with the local inputs of the current frame; only
    /// a running session sends inputs.
    pub fn send_controller_inputs(&self, inputs: Vec<I>) -> (m: Option<InputConfirm<I>>)
        ensures
            match self@.state {
                StateView::Running { frame } => m matches Some(c) && c@ == (ConfirmView {
                    inputs: inputs@,
                    frame,
                }),
                _ => m is None,
            },
    {
        match &self.state {
            NetplayState::Running { frame } => Some(InputConfirm { frame: *frame, inputs }),
            _ => None,
        }
    }

    /// Takes a message from the peer. Returns the id to answer when it is a
    /// ping request (message `0x03` with that id). A disconnect message
    /// ends the session, and is ignored by an offline one, which only
    /// leaves `Offline` by connecting.
    pub fn receive(&mut self, msg: Incoming<I>) -> (answer: Option<u8>)
        requires
            old(self).wf(),
        ensures
            final(self).wf(),
            match msg {
                Incoming::InitConnection(m) => answer is None && final(self)@ == (NetplayView {
                    init_msgs: old(self)@.init_msgs.push(m@),
                    ..old(self)@
                }),
                Incoming::PingRequest(id) => answer == Some(id) && final(self)@ == old(self)@,
                Incoming::PingResponse(id) => answer is None && final(self)@ == (NetplayView {
                    ping_msgs: old(self)@.ping_msgs.push(id),
                    ..old(self)@
                }),
                Incoming::ControllerInputs(c) => answer is None && final(self)@ == (NetplayView {
                    running_msgs: old(self)@.running_msgs.push(c@),
                    ..old(self)@
                }),
                Incoming::Disconnect => answer is None && if old(self)@.state is Offline {
                    final(self)@ == old(self)@
                } else {
                    final(self)@ == (NetplayView {
                        state: StateView::Disconnected { reason: "Peer disconnected"@ },
                        ..old(self)@
                    })
                },
            },
    {
        match msg {
            Incoming::InitConnection(m) => {
                let ghost v = m@;
                self.init_msgs.push(m);
                assert(self@.init_msgs =~= old(self)@.init_msgs.push(v));
                None
            },
            Incoming::PingRequest(id) => Some(id),
            Incoming::PingResponse(id) => {
                self.ping_msgs.push(id);
                None
            },
            Incoming::ControllerInputs(c) => {
                let ghost v = c@;
                self.running_msgs.push(c);
                assert(self@.running_msgs =~= old(self)@.running_msgs.push(v));
                None
            },
            Incoming::Disconnect => {
                // An offline session has no peer: it stays offline.
                if !matches!(self.state, NetplayState::Offline) {
                    let reason = string_from_chars(&chars_of("Peer disconnected"));
                    self.state = NetplayState::Disconnected { reason };
                }
                None
            },
        }
    }

    /// The ping test was good enough: the game starts at frame 0.
    pub fn ping_test_passed(&mut self)
        requires
            old(self)@.state is PingTest,
        ensures
            final(self).wf(),
            final(self)@ == (NetplayView { state: StateView::Running { frame: 0 }, ..old(self)@ }),
    {
        self.state = NetplayState::Running { frame: 0 };
    }

    /// The ping was too high; `reason` says by how much. The caller tells
    /// the peer (message `0xAA`).
    pub fn ping_test_failed(&mut self, reason: String)
        requires
            old(self)@.state is PingTest,
        ensures
            final(self).wf(),
            final(self)@ == (NetplayView {
                state: StateView::Disconnected { reason: reason@ },
                ..old(self)@
            }),
    {
        self.state = NetplayState::Disconnected { reason };
    }

    fn first_unsent_exec(pings: &Vec<Ping>) -> (r: Option<usize>)
        ensures
            r matches Some(k) ==> first_unsent(pings@) == Some(k as int) && k < pings@.len(),
            r is None ==> first_unsent(pings@) is None,
    {
        let mut i: usize = 0;
        while i < pings.len()
            invariant
                i <= pings.len(),
                forall|j: int| 0 <= j < i ==> pings@[j].time_sent is Some,
            decreases pings.len() - i,
        {
            if pings[i].time_sent.is_none() {
                proof {
                    let c = choose|k: int|
                        0 <= k < pings@.len() && pings@[k].time_sent is None && forall|j: int|
                            0 <= j < k ==> pings@[j].time_sent is Some;
                    assert(0 <= c < pings@.len() && pings@[c].time_sent is None && forall|j: int|
                        0 <= j < c ==> pings@[j].time_sent is Some);
                    if c < i {
                        assert(pings@[c].time_sent is Some);
                    }
                    if c > i {
                        assert(pings@[i as int].time_sent is Some);
                    }
                }
                return Some(i);
            }
            i = i + 1;
        }
        None
    }

    fn ping_total_exec(pings: &Vec<Ping>) -> (t: u128)
        requires
            pings@.len() >= PINGS_COUNTED,
        ensures
            t == ping_total(pings@, PINGS_COUNTED as int),
    {
        let mut t: u128 = 0;
        let mut i: usize = 0;
        while i < PINGS_COUNTED
            invariant
                i <= PINGS_COUNTED,
                pings@.len() >= PINGS_COUNTED,
                t == ping_total(pings@, i as int),
                t <= i * 0x1_0000_0000_0000_0000,
            decreases PINGS_COUNTED - i,
        {
            let p = pings[i];
            let d: u64 = match p.time_sent {
                Some(sent) => match p.time_received {
                    Some(received) => if received >= sent {
                        received - sent
                    } else {
                        0
                    },
                    None => DROPPED_PING_NANOS,
                },
                None => DROPPED_PING_NANOS,
            };
            assert(d == ping_nanos(pings@[i as int]));
            t = t + d as u128;
            i = i + 1;
        }
        t
    }

    fn record_answers(pings: &mut Vec<Ping>, answers: &Vec<u8>, now: u64)
        requires
            old(pings)@.len() == PING_COUNT,
            forall|k: int| 0 <= k < answers@.len() ==> answers@[k] < PING_COUNT,
        ensures
            final(pings)@ == Seq::new(
                old(pings)@.len(),
                |k: int|
                    Ping {
                        time_sent: old(pings)@[k].time_sent,
                        time_received: if answered(answers@, k) {
                            Some(now)
                        } else {
                            old(pings)@[k].time_received
                        },
                    },
            ),
    {
        let ghost sent = pings@;
        let mut j: usize = 0;
        while j < answers.len()
            invariant
                j <= answers@.len(),
                forall|k: int|
                    0 <= k < answers@.len() ==> answers@[k]
                        < PING_COUNT,
                pings@.len() == PING_COUNT,
                sent.len() == PING_COUNT,
                pings@ == Seq::new(
                    sent.len(),
                    |k: int|
                        Ping {
                            time_sent: sent[k].time_sent,
                            time_received: if answered(
                                answers@.take(j as int),
                                k,
                            ) {
                                Some(now)
                            } else {
                                sent[k].time_received
                            },
                        },
                ),
            decreases answers@.len() - j,
        {
            let id = answers[j] as usize;
            let q = pings[id];
            pings.set(id, Ping { time_sent: q.time_sent, time_received: Some(now) });
            j = j + 1;
            proof {
                let msgs = answers@;
                let tj = msgs.take(j as int);
                let tp = msgs.take(j - 1);
                assert(tj =~= tp.push(msgs[j - 1]));
                assert forall|k: int| 0 <= k < sent.len() implies #[trigger] answered(
                    tj,
                    k,
                ) == (answered(tp, k) || k == id) by {
                    if k == id {
                        assert(msgs.take(j as int)[j - 1] == k as u8);
                    }
                    if tj.contains(k as u8) && k < 256 && k != id {
                        let w = choose|w: int| 0 <= w < tj.len() && tj[w] == k as u8;
                        if w == j - 1 {
                            assert(k as u8 == id as u8);
                            assert(false);
                        }
                        assert(tp[w] == k as u8);
                    }
                    if tp.contains(k as u8) {
                        let w = choose|w: int| 0 <= w < tp.len() && tp[w] == k as u8;
                        assert(tj[w] == k as u8);
                    }
                }
                assert(pings@ =~= Seq::new(
                    sent.len(),
                    |k: int|
                        Ping {
                            time_sent: sent[k].time_sent,
                            time_received: if answered(tj, k) {
                                Some(now)
                            } else {
                                sent[k].time_received
                            },
                        },
                ));
            }
        }
        proof {
            assert(answers@.take(answers@.len() as int) =~= answers@);
        }
    }

    fn ping_step(pings: Vec<Ping>, answers: &Vec<u8>, now: u64) -> (r: (Vec<Ping>, StepAction))
        requires
            pings@.len() == PING_COUNT,
            first_unsent(pings@) is Some ==> forall|k: int|
                0 <= k < answers@.len() ==> answers@[k] < PING_COUNT,
        ensures
            r.0@.len() == PING_COUNT,
            match first_unsent(pings@) {
                Some(n) => r.1 matches StepAction::SendPingRequest(id) && id == n && r.0@
                    == pings_after_send(pings@, n, answers@, now),
                None => r.1 == (StepAction::PingTestDone {
                    total_nanos: ping_total(pings@, PINGS_COUNTED as int) as u128,
                }) && r.0@ == pings@,
            },
    {
        let ghost old_pings = pings@;
        let mut pings = pings;
        match Self::first_unsent_exec(&pings) {
            Some(n) => {
                let p = pings[n];
                pings.set(n, Ping { time_sent: Some(now), time_received: p.time_received });
                Self::record_answers(&mut pings, answers, now);
                assert(pings@ =~= pings_after_send(old_pings, n as int, answers@, now));
                assert(first_unsent(old_pings) == Some(n as int));
                let id = n as u8;
                assert(id == n);
                (pings, StepAction::SendPingRequest(id))
            },
            None => {
                let total = Self::ping_total_exec(&pings);
                assert(first_unsent(old_pings) is None);
                assert(total == ping_total(old_pings, PINGS_COUNTED as int) as u128);
                (pings, StepAction::PingTestDone { total_nanos: total })
            },
        }
    }

    fn step_ping_test(&mut self, now: u64) -> (act: StepAction)
        requires
            old(self).wf(),
            old(self)@.state matches StateView::PingTest { pings } && (first_unsent(pings) is Some
                ==> forall|k: int| 0 <= k < old(self)@.ping_msgs.len() ==> old(self)@.ping_msgs[k]
                < PING_COUNT),
        ensures
            final(self).wf(),
            old(self)@.state matches StateView::PingTest { pings } && match first_unsent(pings) {
                Some(n) => act matches StepAction::SendPingRequest(id) && id == n && final(self)@
                    == (NetplayView {
                    state: StateView::PingTest {
                        pings: pings_after_send(pings, n, old(self)@.ping_msgs, now),
                    },
                    ping_msgs: seq![],
                    ..old(self)@
                }),
                None => act == (StepAction::PingTestDone {
                    total_nanos: ping_total(pings, PINGS_COUNTED as int) as u128,
                }) && final(self)@ == (NetplayView { ping_msgs: seq![], ..old(self)@ }),
            },
    {
        let mut st = NetplayState::Offline;
        std::mem::swap(&mut st, &mut self.state);
        let act;
        match st {
            NetplayState::PingTest { pings } => {
                let r = Self::ping_step(pings, &self.ping_msgs, now);
                self.state = NetplayState::PingTest { pings: r.0 };
                act = r.1;
            },
            other => {
                self.state = other;
                act = StepAction::Nothing;
            },
        }
        self.ping_msgs = Vec::new();
        assert(self@.ping_msgs =~= Seq::<u8>::empty());
        act
    }

    fn step_init(&mut self) -> (act: StepAction)
        requires
            old(self).wf(),
            old(self)@.state is InitConnection,
        ensures
            final(self).wf(),
            old(self)@.state matches StateView::InitConnection(local) && act matches StepAction::SendInit(i)
                && i@ == local && if old(self)@.init_msgs.len() == 0 {
                final(self)@ == old(self)@
            } else {
                final(self)@ == (NetplayView {
                    state: init_outcome(local, old(self)@.init_msgs.last()),
                    index: if local.random < old(self)@.init_msgs.last().random {
                        0usize
                    } else {
                        1usize
                    },
                    seed: if local.random < old(self)@.init_msgs.last().random {
                        local.random
                    } else {
                        old(self)@.init_msgs.last().random
                    },
                    init_msgs: seq![],
                    ..old(self)@
                })
            },
    {
        let mut st = NetplayState::Offline;
        std::mem::swap(&mut st, &mut self.state);
        match st {
            NetplayState::InitConnection(local) => {
                let sent = local.copy_init();
                let count = self.init_msgs.len();
                if count == 0 {
                    self.state = NetplayState::InitConnection(local);
                    return StepAction::SendInit(sent);
                }
                let peer = &self.init_msgs[count - 1];
                let new_state = if !crate::text::str_eq(peer.hash.as_str(), local.hash.as_str()) {
                    NetplayState::Disconnected {
                        reason: string_from_chars(
                            &chars_of(
                                "Package hashes did not match, ensure everyone is using the same package.",
                            ),
                        ),
                    }
                } else if !crate::text::str_eq(
                    peer.build_version.as_str(),
                    local.build_version.as_str(),
                ) {
                    NetplayState::Disconnected {
                        reason: string_from_chars(
                            &chars_of(
                                "Build versions did not match, ensure everyone is using the same PF Sandbox build.",
                            ),
                        ),
                    }
                } else {
                    let mut pings: Vec<Ping> = Vec::new();
                    let mut k: usize = 0;
                    while k < PING_COUNT
                        invariant
                            k <= PING_COUNT,
                            pings@ == Seq::new(
                                k as nat,
                                |j: int| Ping { time_sent: None, time_received: None },
                            ),
                        decreases PING_COUNT - k,
                    {
                        pings.push(Ping::default_ping());
                        k = k + 1;
                        proof {
                            assert(pings@ =~= Seq::new(
                                k as nat,
                                |j: int| Ping { time_sent: None, time_received: None },
                            ));
                        }
                    }
                    NetplayState::PingTest { pings }
                };
                if local.random < peer.random {
                    self.index = 0;
                    self.seed = local.random;
                } else {
                    self.index = 1;
                    self.seed = peer.random;
                }
                self.state = new_state;
                self.init_msgs = Vec::new();
                assert(self@.init_msgs =~= Seq::<InitView>::empty());
                StepAction::SendInit(sent)
            },
            other => {
                self.state = other;
                StepAction::Nothing
            },
        }
    }

    fn confirm_one_pass(&mut self) -> (progressed: bool)
        requires
            old(self)@.running_msgs.len() > 0 ==> old(self)@.confirmed.len() >= 1,
        ensures
            final(self).wf() == old(self).wf(),
            final(self)@.state == old(self)@.state,
            final(self)@.seed == old(self)@.seed,
            final(self)@.index == old(self)@.index,
            final(self)@.init_msgs == old(self)@.init_msgs,
            final(self)@.ping_msgs == old(self)@.ping_msgs,
            old(self)@.running_msgs.len() == 0 ==> final(self)@ == old(self)@ && !progressed,
            old(self)@.running_msgs.len() > 0 ==> {
                let p = confirm_pass(old(self)@.confirmed[0].len(), old(self)@.running_msgs);
                &&& progressed == (p.0.len() > 0)
                &&& final(self)@.confirmed == old(self)@.confirmed.update(
                    0,
                    old(self)@.confirmed[0] + p.0,
                )
                &&& final(self)@.running_msgs == p.1
            },
    {
        if self.running_msgs.len() == 0 {
            return false;
        }
        let ghost v0 = self@;
        let ghost len0 = v0.confirmed[0].len();
        let mut msgs: Vec<InputConfirm<I>> = Vec::new();
        std::mem::swap(&mut msgs, &mut self.running_msgs);
        let mut rest: Vec<InputConfirm<I>> = Vec::new();
        let mut progressed = false;
        let ghost mut taken: Seq<Seq<I>> = seq![];
        while msgs.len() > 0
            invariant
                v0 == old(self)@,
                v0.running_msgs.len() > 0,
                len0 == v0.confirmed[0].len(),
                self.confirmed_inputs@.len() == v0.confirmed.len(),
                self.confirmed_inputs@.len() >= 1,
                self.state == old(self).state,
                self.seed == old(self).seed,
                self.index == old(self).index,
                self.init_msgs == old(self).init_msgs,
                self.ping_msgs == old(self).ping_msgs,
                forall|q: int|
                    1 <= q < v0.confirmed.len() ==> self.confirmed_inputs@[q] == old(
                        self,
                    ).confirmed_inputs@[q],
                self.confirmed_inputs@[0]@.map_values(|f: Vec<I>| f@) == v0.confirmed[0] + taken,
                progressed == (taken.len() > 0),
                confirm_pass(len0, v0.running_msgs) == (
                    taken + confirm_pass(
                        len0 + taken.len(),
                        msgs@.map_values(|m: InputConfirm<I>| m@),
                    ).0,
                    rest@.map_values(|m: InputConfirm<I>| m@) + confirm_pass(
                        len0 + taken.len(),
                        msgs@.map_values(|m: InputConfirm<I>| m@),
                    ).1,
                ),
            decreases msgs.len(),
        {
            let ghost mv = msgs@.map_values(|m: InputConfirm<I>| m@);
            let ghost cur = len0 + taken.len();
            let m = msgs.remove(0);
            assert(msgs@.map_values(|m: InputConfirm<I>| m@) =~= mv.drop_first());
            assert(mv[0] == m@);
            assert(self.confirmed_inputs@[0]@.map_values(|f: Vec<I>| f@).len()
                == self.confirmed_inputs@[0]@.len());
            assert(self.confirmed_inputs@[0]@.len() == cur);
            if m.frame == self.confirmed_inputs[0].len() {
                assert(confirm_pass(cur, mv) == (seq![mv[0].inputs] + confirm_pass(
                    cur + 1,
                    mv.drop_first(),
                ).0, confirm_pass(cur + 1, mv.drop_first()).1));
                let ghost iv = m.inputs@;
                let ghost prev = self.confirmed_inputs@[0]@;
                self.confirmed_inputs[0].push(m.inputs);
                proof {
                    assert(self.confirmed_inputs@[0]@ == prev.push(m.inputs));
                    assert(self.confirmed_inputs@[0]@.map_values(|f: Vec<I>| f@) =~= prev.map_values(
                        |f: Vec<I>| f@,
                    ).push(iv));
                    assert((taken + seq![iv]) + confirm_pass(cur + 1, mv.drop_first()).0 =~= taken + (
                    seq![iv] + confirm_pass(cur + 1, mv.drop_first()).0));
                    taken = taken.push(iv);
                    assert(taken =~= (taken.drop_last() + seq![iv]));
                }
                progressed = true;
            } else {
                assert(confirm_pass(cur, mv) == (confirm_pass(cur, mv.drop_first()).0, seq![mv[0]]
                    + confirm_pass(cur, mv.drop_first()).1));
                let ghost mview = m@;
                let ghost prest = rest@.map_values(|m: InputConfirm<I>| m@);
                rest.push(m);
                proof {
                    assert(rest@.map_values(|m: InputConfirm<I>| m@) =~= prest.push(mview));
                    assert(prest.push(mview) + confirm_pass(cur, mv.drop_first()).1 =~= prest + (seq![
                        mview,
                    ] + confirm_pass(cur, mv.drop_first()).1));
                }
            }
        }
        self.running_msgs = rest;
        proof {
            let e = Seq::<ConfirmView<I>>::empty();
            assert(msgs@.map_values(|m: InputConfirm<I>| m@) =~= e);
            assert(taken + confirm_pass(len0 + taken.len(), e).0 =~= taken);
            let rv = self.running_msgs@.map_values(|m: InputConfirm<I>| m@);
            assert(rv + confirm_pass(len0 + taken.len(), e).1 =~= rv);
            assert(self@.confirmed =~= v0.confirmed.update(
                0,
                v0.confirmed[0] + confirm_pass(len0, v0.running_msgs).0,
            ));
        }
        progressed
    }

    fn step_running(&mut self, skip: bool)
        requires
            old(self).wf(),
            old(self)@.state is Running,
            step_ready(old(self)@),
            skip == spec_skip_frame(old(self)@),
        ensures
            final(self).wf(),
            old(self)@.state matches StateView::Running { frame } && final(self)@
                == running_after_step(old(self)@, frame),
    {
        let ghost v0 = self@;
        let frame = match &self.state {
            NetplayState::Running { frame } => *frame,
            _ => 0,
        };
        if !skip {
            self.state = NetplayState::Running { frame: frame + 1 };
        }
        let ghost len0: nat = if v0.confirmed.len() > 0 {
            v0.confirmed[0].len()
        } else {
            0
        };
        let ghost mut taken: Seq<Seq<I>> = seq![];
        let mut go = true;
        while go
            invariant
                self.wf(),
                len0 == (if v0.confirmed.len() > 0 {
                    v0.confirmed[0].len()
                } else {
                    0nat
                }),
                self@.state == running_after_step(v0, frame).state,
                self@.seed == v0.seed,
                self@.index == v0.index,
                self@.init_msgs == v0.init_msgs,
                self@.ping_msgs == v0.ping_msgs,
                self@.running_msgs.len() > 0 ==> self@.confirmed.len() >= 1,
                self@.confirmed.len() == v0.confirmed.len(),
                v0.running_msgs.len() > 0 ==> v0.confirmed.len() >= 1,
                v0.running_msgs.len() == 0 ==> self@.confirmed == v0.confirmed && taken.len() == 0
                    && self@.running_msgs.len() == 0,
                v0.running_msgs.len() > 0 ==> self@.confirmed == v0.confirmed.update(
                    0,
                    v0.confirmed[0] + taken,
                ),
                self@.running_msgs.len() > 0 ==> self@.confirmed[0].len() == len0 + taken.len(),
                confirm_all(len0, v0.running_msgs) == (
                    taken + confirm_all(len0 + taken.len(), self@.running_msgs).0,
                    confirm_all(len0 + taken.len(), self@.running_msgs).1,
                ),
                !go ==> confirm_pass(len0 + taken.len(), self@.running_msgs).0.len() == 0,
            decreases self@.running_msgs.len() + if go {
                1int
            } else {
                0int
            },
        {
            let ghost before = self@;
            let ghost cur = len0 + taken.len();
            proof {
                lemma_confirm_pass_len(cur, before.running_msgs);
            }
            let progressed = self.confirm_one_pass();
            if progressed {
                proof {
                    assert(before.running_msgs.len() > 0);
                    assert(v0.running_msgs.len() > 0);
                    assert(before.confirmed.len() >= 1);
                    assert(v0.confirmed.len() >= 1);
                    assert(before.confirmed == v0.confirmed.update(0, v0.confirmed[0] + taken));
                    assert(before.confirmed[0] == v0.confirmed[0] + taken);
                    let p = confirm_pass(cur, before.running_msgs);
                    let q = confirm_all(cur + p.0.len(), p.1);
                    assert(confirm_all(cur, before.running_msgs) == (p.0 + q.0, q.1));
                    assert(taken + (p.0 + q.0) =~= (taken + p.0) + q.0);
                    assert(v0.confirmed[0] + (taken + p.0) =~= (v0.confirmed[0] + taken) + p.0);
                    taken = taken + p.0;
                    assert(self@.confirmed =~= v0.confirmed.update(0, v0.confirmed[0] + taken));
                }
            } else {
                go = false;
                proof {
                    if before.running_msgs.len() > 0 {
                        assert(self@.running_msgs == before.running_msgs);
                    }
                }
            }
        }
        proof {
            let cur = len0 + taken.len();
            lemma_confirm_pass_len(cur, self@.running_msgs);
            assert(confirm_all(cur, self@.running_msgs) == (Seq::<Seq<I>>::empty(), self@.running_msgs));
            assert(taken + Seq::<Seq<I>>::empty() =~= taken);
            assert(self@ == running_after_step(v0, frame));
        }
    }

    /// Whether `step` can run now (see `step_ready`).
    pub fn can_step(&self) -> (r: bool)
        ensures
            r == step_ready(self@),
    {
        match &self.state {
            NetplayState::PingTest { pings } => {
                match Self::first_unsent_exec(pings) {
                    None => true,
                    Some(first) => {
                        assert(first_unsent(pings@) == Some(first as int));
                        assert(self@.state == (StateView::PingTest { pings: pings@ }));
                        let mut k: usize = 0;
                        while k < self.ping_msgs.len()
                            invariant
                                k <= self.ping_msgs@.len(),
                                forall|j: int| 0 <= j < k ==> self.ping_msgs@[j] < PING_COUNT,
                                first_unsent(pings@) is Some,
                                self@.state == (StateView::PingTest { pings: pings@ }),
                            decreases self.ping_msgs@.len() - k,
                        {
                            if self.ping_msgs[k] as usize >= PING_COUNT {
                                assert(!(self@.ping_msgs[k as int] < PING_COUNT));
                                return false;
                            }
                            k = k + 1;
                        }
                        true
                    },
                }
            },
            NetplayState::Running { frame } => {
                *frame < usize::MAX && (self.running_msgs.len() == 0
                    || self.confirmed_inputs.len() >= 1)
            },
            _ => true,
        }
    }

    /// One frame of the session, at time `now` of the caller's clock:
    /// - while connecting, the local request is sent again, and the last
    ///   request from the peer decides the next state, which side is player
    ///   one (the smaller random number) and the session's seed;
    /// - during the ping test, the next ping is sent and the answers that
    ///   arrived are recorded; once every ping is sent, the caller judges
    ///   the total;
    /// - while running, the frame advances unless the local side waits for
    ///   its peer, and received inputs are confirmed in frame order.
    pub fn step(&mut self, now: u64) -> (act: StepAction)
        requires
            old(self).wf(),
            step_ready(old(self)@),
        ensures
            final(self).wf(),
            match old(self)@.state {
                StateView::Offline => act is Nothing && final(self)@ == old(self)@,
                StateView::Disconnected { .. } => act is Nothing && final(self)@ == old(self)@,
                StateView::InitConnection(local) => act matches StepAction::SendInit(i) && i@
                    == local && if old(self)@.init_msgs.len() == 0 {
                    final(self)@ == old(self)@
                } else {
                    final(self)@ == (NetplayView {
                        state: init_outcome(local, old(self)@.init_msgs.last()),
                        index: if local.random < old(self)@.init_msgs.last().random {
                            0usize
                        } else {
                            1usize
                        },
                        seed: if local.random < old(self)@.init_msgs.last().random {
                            local.random
                        } else {
                            old(self)@.init_msgs.last().random
                        },
                        init_msgs: seq![],
                        ..old(self)@
                    })
                },
                StateView::PingTest { pings } => match first_unsent(pings) {
                    Some(n) => act matches StepAction::SendPingRequest(id) && id == n
                        && final(self)@ == (NetplayView {
                        state: StateView::PingTest {
                            pings: pings_after_send(pings, n, old(self)@.ping_msgs, now),
                        },
                        ping_msgs: seq![],
                        ..old(self)@
                    }),
                    None => act == (StepAction::PingTestDone {
                        total_nanos: ping_total(pings, PINGS_COUNTED as int) as u128,
                    }) && final(self)@ == (NetplayView { ping_msgs: seq![], ..old(self)@ }),
                },
                StateView::Running { frame } => act is Nothing && final(self)@
                    == running_after_step(old(self)@, frame),
            },
    {
        let skip = self.skip_frame();
        let kind: u8 = match &self.state {
            NetplayState::Offline => 0,
            NetplayState::Disconnected { .. } => 0,
            NetplayState::InitConnection(_) => 1,
            NetplayState::PingTest { .. } => 2,
            NetplayState::Running { .. } => 3,
        };
        if kind == 1 {
            self.step_init()
        } else if kind == 2 {
            self.step_ping_test(now)
        } else if kind == 3 {
            self.step_running(skip);
            StepAction::Nothing
        } else {
            StepAction::Nothing
        }
    }
}

/// Whether a message among `msgs` carried `inputs` for frame `f`.
pub open spec fn sent_for_frame<I>(msgs: Seq<ConfirmView<I>>, f: int, inputs: Seq<I>) -> bool {
    exists|k: int| 0 <= k < msgs.len() && #[trigger] msgs[k].frame == f && msgs[k].inputs == inputs
}

proof fn lemma_pass_sound<I>(len: nat, msgs: Seq<ConfirmView<I>>)
    ensures
        forall|j: int|
            0 <= j < confirm_pass(len, msgs).0.len() ==> sent_for_frame(
                msgs,
                len + j,
                #[trigger] confirm_pass(len, msgs).0[j],
            ),
        forall|k: int|
            0 <= k < confirm_pass(len, msgs).1.len() ==> exists|q: int|
                0 <= q < msgs.len() && msgs[q] == #[trigger] confirm_pass(len, msgs).1[k],
        forall|q: int|
            0 <= q < msgs.len() && msgs[q].frame >= len + confirm_pass(len, msgs).0.len() ==> exists|k: int|
                0 <= k < confirm_pass(len, msgs).1.len() && confirm_pass(len, msgs).1[k] == #[trigger] msgs[q],
    decreases msgs.len(),
{
    if msgs.len() > 0 {
        let m = msgs[0];
        let rest = msgs.drop_first();
        let whole = confirm_pass(len, msgs);
        if m.frame == len {
            lemma_pass_sound(len + 1, rest);
            let p = confirm_pass(len + 1, rest);
            assert(whole.0 == seq![m.inputs] + p.0);
            assert(whole.1 == p.1);
            assert forall|j: int| 0 <= j < whole.0.len() implies sent_for_frame(
                msgs,
                len + j,
                #[trigger] whole.0[j],
            ) by {
                if j == 0 {
                    assert(msgs[0].frame == len + 0 && msgs[0].inputs == whole.0[0]);
                } else {
                    assert(whole.0[j] == p.0[j - 1]);
                    assert(sent_for_frame(rest, (len + 1) + (j - 1), p.0[j - 1]));
                    let k = choose|k: int|
                        0 <= k < rest.len() && #[trigger] rest[k].frame == (len + 1) + (j - 1)
                            && rest[k].inputs == p.0[j - 1];
                    assert(msgs[k + 1] == rest[k]);
                    assert(msgs[k + 1].frame == len + j && msgs[k + 1].inputs == whole.0[j]);
                }
            }
            assert forall|k: int|
                0 <= k < whole.1.len() implies exists|q: int| 0 <= q < msgs.len() && msgs[q] == #[trigger] whole.1[k] by {
                let q = choose|q: int| 0 <= q < rest.len() && rest[q] == #[trigger] p.1[k];
                assert(msgs[q + 1] == rest[q]);
            }
            assert forall|q: int|
                0 <= q < msgs.len() && msgs[q].frame >= len + whole.0.len() implies exists|k: int|
                    0 <= k < whole.1.len() && whole.1[k] == #[trigger] msgs[q] by {
                assert(q != 0);
                assert(msgs[q] == rest[q - 1]);
                assert(rest[q - 1].frame >= (len + 1) + p.0.len());
                let k = choose|k: int| 0 <= k < p.1.len() && p.1[k] == #[trigger] rest[q - 1];
                assert(whole.1[k] == msgs[q]);
            }
        } else {
            lemma_pass_sound(len, rest);
            let p = confirm_pass(len, rest);
            assert(whole.0 == p.0);
            assert(whole.1 == seq![m] + p.1);
            assert forall|j: int| 0 <= j < whole.0.len() implies sent_for_frame(
                msgs,
                len + j,
                #[trigger] whole.0[j],
            ) by {
                assert(whole.0[j] == p.0[j]);
                assert(sent_for_frame(rest, len + j, p.0[j]));
                let k = choose|k: int|
                    0 <= k < rest.len() && #[trigger] rest[k].frame == len + j && rest[k].inputs == p.0[j];
                assert(msgs[k + 1] == rest[k]);
                assert(msgs[k + 1].frame == len + j && msgs[k + 1].inputs == whole.0[j]);
            }
            assert forall|k: int|
                0 <= k < whole.1.len() implies exists|q: int| 0 <= q < msgs.len() && msgs[q] == #[trigger] whole.1[k] by {
                if k == 0 {
                    assert(msgs[0] == whole.1[0]);
                } else {
                    assert(whole.1[k] == p.1[k - 1]);
                    let q = choose|q: int| 0 <= q < rest.len() && rest[q] == #[trigger] p.1[k - 1];
                    assert(msgs[q + 1] == rest[q]);
                }
            }
            assert forall|q: int|
                0 <= q < msgs.len() && msgs[q].frame >= len + whole.0.len() implies exists|k: int|
                    0 <= k < whole.1.len() && whole.1[k] == #[trigger] msgs[q] by {
                if q == 0 {
                    assert(whole.1[0] == msgs[0]);
                } else {
                    assert(msgs[q] == rest[q - 1]);
                    let k = choose|k: int| 0 <= k < p.1.len() && p.1[k] == #[trigger] rest[q - 1];
                    assert(whole.1[k + 1] == p.1[k]);
                }
            }
        }
    }
}

proof fn lemma_pass_takes_next<I>(len: nat, msgs: Seq<ConfirmView<I>>, q: int)
    requires
        0 <= q < msgs.len(),
        msgs[q].frame == len,
    ensures
        confirm_pass(len, msgs).0.len() > 0,
    decreases msgs.len(),
{
    if msgs[0].frame != len {
        assert(msgs.drop_first()[q - 1] == msgs[q]);
        lemma_pass_takes_next(len, msgs.drop_first(), q - 1);
    }
}

/// Inputs are confirmed for the frames they were sent for: the `j`th input
/// confirmed after `len` confirmed frames came in a message for frame
/// `len + j`, and every message that is kept was received.
pub proof fn law_inputs_confirmed_for_their_frame<I>(len: nat, msgs: Seq<ConfirmView<I>>)
    ensures
        forall|j: int|
            0 <= j < confirm_all(len, msgs).0.len() ==> sent_for_frame(
                msgs,
                len + j,
                #[trigger] confirm_all(len, msgs).0[j],
            ),
    decreases msgs.len(),
{
    let p = confirm_pass(len, msgs);
    lemma_pass_sound(len, msgs);
    if p.0.len() > 0 {
        lemma_confirm_pass_len(len, msgs);
        law_inputs_confirmed_for_their_frame(len + p.0.len(), p.1);
        let q = confirm_all(len + p.0.len(), p.1);
        let all = confirm_all(len, msgs);
        assert(all.0 == p.0 + q.0);
        assert forall|j: int| 0 <= j < all.0.len() implies sent_for_frame(
            msgs,
            len + j,
            #[trigger] all.0[j],
        ) by {
            if j < p.0.len() {
                assert(all.0[j] == p.0[j]);
                assert(sent_for_frame(msgs, len + j, p.0[j]));
                let k = choose|k: int|
                    0 <= k < msgs.len() && #[trigger] msgs[k].frame == len + j && msgs[k].inputs == p.0[j];
                assert(msgs[k].frame == len + j && msgs[k].inputs == all.0[j]);
            } else {
                let jj = j - p.0.len();
                assert(all.0[j] == q.0[jj]);
                assert(sent_for_frame(p.1, (len + p.0.len()) + jj, q.0[jj]));
                let k = choose|k: int|
                    0 <= k < p.1.len() && #[trigger] p.1[k].frame == (len + p.0.len()) + jj
                        && p.1[k].inputs == q.0[jj];
                let r = choose|r: int| 0 <= r < msgs.len() && msgs[r] == #[trigger] p.1[k];
                assert(msgs[r].frame == len + j && msgs[r].inputs == all.0[j]);
            }
        }
    }
}

/// Whether a message for frame `f` is among `msgs`.
pub open spec fn has_frame_msg<I>(msgs: Seq<ConfirmView<I>>, f: int) -> bool {
    exists|k: int| 0 <= k < msgs.len() && #[trigger] msgs[k].frame == f
}

/// Inputs are confirmed whatever order they arrive in: when messages for
/// each of the `m` frames after the `len` confirmed ones have arrived, at
/// least `m` more frames are confirmed.
pub proof fn law_consecutive_frames_all_confirmed<I>(len: nat, msgs: Seq<ConfirmView<I>>, m: nat)
    requires
        forall|f: int| len <= f < len + m ==> #[trigger] has_frame_msg(msgs, f),
    ensures
        confirm_all(len, msgs).0.len() >= m,
    decreases msgs.len(),
{
    if m > 0 {
        assert(has_frame_msg(msgs, len as int));
        let k0 = choose|k: int| 0 <= k < msgs.len() && #[trigger] msgs[k].frame == len;
        lemma_pass_takes_next(len, msgs, k0);
        let p = confirm_pass(len, msgs);
        lemma_pass_sound(len, msgs);
        lemma_confirm_pass_len(len, msgs);
        if p.0.len() < m {
            let t = p.0.len();
            assert forall|f: int| len + t <= f < len + t + (m - t) implies #[trigger] has_frame_msg(p.1, f) by {
                assert(has_frame_msg(msgs, f));
                let q = choose|q: int| 0 <= q < msgs.len() && #[trigger] msgs[q].frame == f;
                let k = choose|k: int| 0 <= k < p.1.len() && p.1[k] == #[trigger] msgs[q];
                assert(p.1[k].frame == f);
            }
            law_consecutive_frames_all_confirmed(len + t, p.1, (m - t) as nat);
        }
    }
}

} // verus!
