//! Controller input: GameCube adapter reports, deadzones, and button edges.

use vstd::prelude::*;

verus! {

/// Stores the first value returned from an input source.
#[derive(Clone, Copy, Debug, PartialEq, Eq, Structural)]
pub struct Deadzone {
    pub plugged_in: bool,
    pub stick_x: u8,
    pub stick_y: u8,
    pub c_stick_x: u8,
    pub c_stick_y: u8,
    pub l_trigger: u8,
    pub r_trigger: u8,
}

impl Deadzone {
    /// A deadzone that has not seen a controller yet.
    pub fn empty() -> (d: Self)
        ensures
            d == (Deadzone {
                plugged_in: false,
                stick_x: 0,
                stick_y: 0,
                c_stick_x: 0,
                c_stick_y: 0,
                l_trigger: 0,
                r_trigger: 0,
            }),
    {
        Deadzone {
            plugged_in: false,
            stick_x: 0,
            stick_y: 0,
            c_stick_x: 0,
            c_stick_y: 0,
            l_trigger: 0,
            r_trigger: 0,
        }
    }

    /// Empty deadzones for the four ports of an adapter.
    pub fn empty4() -> (d: [Self; 4])
        ensures
            forall|i: int| 0 <= i < 4 ==> #[trigger] d@[i] == (Deadzone {
                plugged_in: false,
                stick_x: 0,
                stick_y: 0,
                c_stick_x: 0,
                c_stick_y: 0,
                l_trigger: 0,
                r_trigger: 0,
            }),
    {
        [Deadzone::empty(), Deadzone::empty(), Deadzone::empty(), Deadzone::empty()]
    }
}

/// The stick value recentred so that the first value read maps to 128.
pub open spec fn spec_stick_deadzone(current: u8, first: u8) -> u8 {
    if current > first {
        if 128 + (current - first) > 255 {
            255
        } else {
            (128 + (current - first)) as u8
        }
    } else {
        if 128 - (first - current) < 0 {
            0
        } else {
            (128 - (first - current)) as u8
        }
    }
}

/// Uses the first received stick value to reposition the current stick value around 128.
pub fn stick_deadzone(current: u8, first: u8) -> (r: u8)
    ensures
        r == spec_stick_deadzone(current, first),
{
    if current > first {
        128u8.saturating_add(current - first)
    } else {
        128u8.saturating_sub(first - current)
    }
}

/// The byte offset of a port's report in an adapter read.
pub open spec fn port_base(port: usize) -> int {
    9 * port as int
}

/// Whether the controller report of `port` says a controller is plugged in.
pub open spec fn spec_port_plugged_in(data: Seq<u8>, port: usize) -> bool {
    data[port_base(port) + 1] == 20 || data[port_base(port) + 1] == 16
}

/// The digital buttons of a GameCube controller.
#[derive(Clone, Copy, Debug, PartialEq, Eq, Structural)]
pub struct GcButtons {
    pub up: bool,
    pub down: bool,
    pub right: bool,
    pub left: bool,
    pub y: bool,
    pub x: bool,
    pub b: bool,
    pub a: bool,
    pub l: bool,
    pub r: bool,
    pub z: bool,
    pub start: bool,
}

/// The buttons of `port`: the first button byte holds up, down, right, left,
/// y, x, b, a from the high bit down; the second holds l, r, z, start in its
/// low four bits.
pub open spec fn spec_port_buttons(data: Seq<u8>, port: usize) -> GcButtons {
    let b1 = data[port_base(port) + 2];
    let b2 = data[port_base(port) + 3];
    GcButtons {
        up: b1 & 0x80 != 0,
        down: b1 & 0x40 != 0,
        right: b1 & 0x20 != 0,
        left: b1 & 0x10 != 0,
        y: b1 & 0x08 != 0,
        x: b1 & 0x04 != 0,
        b: b1 & 0x02 != 0,
        a: b1 & 0x01 != 0,
        l: b2 & 0x08 != 0,
        r: b2 & 0x04 != 0,
        z: b2 & 0x02 != 0,
        start: b2 & 0x01 != 0,
    }
}

/// Whether a controller is plugged into `port` of an adapter read.
pub fn port_plugged_in(data: &[u8; 37], port: usize) -> (r: bool)
    requires
        port < 4,
    ensures
        r == spec_port_plugged_in(data@, port),
{
    let status = data[9 * port + 1];
    status == 20 || status == 16
}

/// The digital buttons of `port` in an adapter read.
pub fn port_buttons(data: &[u8; 37], port: usize) -> (b: GcButtons)
    requires
        port < 4,
    ensures
        b == spec_port_buttons(data@, port),
{
    let b1 = data[9 * port + 2];
    let b2 = data[9 * port + 3];
    GcButtons {
        up: b1 & 0b10000000 != 0,
        down: b1 & 0b01000000 != 0,
        right: b1 & 0b00100000 != 0,
        left: b1 & 0b00010000 != 0,
        y: b1 & 0b00001000 != 0,
        x: b1 & 0b00000100 != 0,
        b: b1 & 0b00000010 != 0,
        a: b1 & 0b00000001 != 0,
        l: b2 & 0b00001000 != 0,
        r: b2 & 0b00000100 != 0,
        z: b2 & 0b00000010 != 0,
        start: b2 & 0b00000001 != 0,
    }
}

/// The raw axes of a controller report: stick x and y, c-stick x and y,
/// l and r trigger.
#[derive(Clone, Copy, Debug, PartialEq, Eq, Structural)]
pub struct RawAxes {
    pub stick_x: u8,
    pub stick_y: u8,
    pub c_stick_x: u8,
    pub c_stick_y: u8,
    pub l_trigger: u8,
    pub r_trigger: u8,
}

/// The raw axes of `port` in an adapter read.
pub fn port_axes(data: &[u8; 37], port: usize) -> (a: RawAxes)
    requires
        port < 4,
    ensures
        a.stick_x == data@[port_base(port) + 4],
        a.stick_y == data@[port_base(port) + 5],
        a.c_stick_x == data@[port_base(port) + 6],
        a.c_stick_y == data@[port_base(port) + 7],
        a.l_trigger == data@[port_base(port) + 8],
        a.r_trigger == data@[port_base(port) + 9],
{
    RawAxes {
        stick_x: data[9 * port + 4],
        stick_y: data[9 * port + 5],
        c_stick_x: data[9 * port + 6],
        c_stick_y: data[9 * port + 7],
        l_trigger: data[9 * port + 8],
        r_trigger: data[9 * port + 9],
    }
}

/// The deadzone after a read: a controller that was just plugged in (and
/// reports a nonzero stick x, as the first response is garbage) sets the
/// deadzone to its current axes; an unplugged controller clears it.
pub fn update_deadzone(deadzone: Deadzone, plugged_in: bool, raw: RawAxes) -> (d: Deadzone)
    ensures
        !plugged_in ==> d == (Deadzone {
            plugged_in: false,
            stick_x: 0,
            stick_y: 0,
            c_stick_x: 0,
            c_stick_y: 0,
            l_trigger: 0,
            r_trigger: 0,
        }),
        plugged_in && !deadzone.plugged_in && raw.stick_x != 0 ==> d == (Deadzone {
            plugged_in: true,
            stick_x: raw.stick_x,
            stick_y: raw.stick_y,
            c_stick_x: raw.c_stick_x,
            c_stick_y: raw.c_stick_y,
            l_trigger: raw.l_trigger,
            r_trigger: raw.r_trigger,
        }),
        plugged_in && (deadzone.plugged_in || raw.stick_x == 0) ==> d == deadzone,
{
    let mut d = deadzone;
    if plugged_in && !deadzone.plugged_in && raw.stick_x != 0 {
        d = Deadzone {
            plugged_in: true,
            stick_x: raw.stick_x,
            stick_y: raw.stick_y,
            c_stick_x: raw.c_stick_x,
            c_stick_y: raw.c_stick_y,
            l_trigger: raw.l_trigger,
            r_trigger: raw.r_trigger,
        };
    }
    if !plugged_in {
        d = Deadzone::empty();
    }
    d
}

/// A digital button's state this frame.
#[derive(Clone, Copy, Debug, PartialEq, Eq, Structural)]
pub struct Button {
    /// on
    pub value: bool,
    /// off->on this frame
    pub press: bool,
}

impl Button {
    /// The button read from its state this frame and the previous frame.
    pub fn from_frames(now: bool, before: bool) -> (b: Button)
        ensures
            b.value == now,
            b.press == (now && !before),
    {
        Button { value: now, press: now && !before }
    }
}

} // verus!
