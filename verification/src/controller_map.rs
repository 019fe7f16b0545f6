//! Controller mapping data: operating systems, mapping destinations, and the
//! history the mapping tool keeps of an analog input.

use vstd::prelude::*;

verus! {

/// The operating systems that controller maps are recorded for.
#[derive(Clone, Copy, Debug, PartialEq, Eq, Structural)]
pub enum OS {
    Windows,
    Linux,
}

impl OS {
    /// The operating system this build targets; only Linux and Windows are supported.
    pub fn get_current(target_linux: bool, target_windows: bool) -> (os: OS)
        requires
            target_linux || target_windows,
        ensures
            target_linux ==> os == OS::Linux,
            !target_linux ==> os == OS::Windows,
    {
        if target_linux {
            OS::Linux
        } else {
            OS::Windows
        }
    }
}

/// The analog values a controller map can write to.
#[derive(Clone, Copy, Debug, PartialEq, Eq, Structural)]
pub enum AnalogDest {
    StickX,
    StickY,
    CStickX,
    CStickY,
    RTrigger,
    LTrigger,
}

/// The digital buttons a controller map can write to.
#[derive(Clone, Copy, Debug, PartialEq, Eq, Structural)]
pub enum DigitalDest {
    A,
    B,
    X,
    Y,
    Left,
    Right,
    Down,
    Up,
    Start,
    Z,
    R,
    L,
}

/// The range an analog input has moved through, and its last value.
#[derive(Clone, Copy, Debug, PartialEq, Eq, Structural)]
pub struct AnalogHistory {
    pub min: i32,
    pub max: i32,
    pub last_value: i32,
}

impl AnalogHistory {
    /// A history that has only seen `value`.
    pub fn new(value: i32) -> (h: AnalogHistory)
        ensures
            h.min == value,
            h.max == value,
            h.last_value == value,
    {
        AnalogHistory { min: value, max: value, last_value: value }
    }
}

/// The input most recently touched in the mapping tool.
#[derive(Clone, Copy, Debug, PartialEq, Eq, Structural)]
pub enum Code {
    Analog(usize, AnalogHistory),
    Digital(usize),
    NoCode,
}

} // verus!
