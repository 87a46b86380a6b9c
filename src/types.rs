use vstd::prelude::*;

verus! {

/// Pin modes, stored as a 3-bit function-select field per line.
#[derive(Debug, PartialEq, Eq, Structural, Copy, Clone)]
pub enum Mode {
    Input,
    Output,
    Alt0,
    Alt1,
    Alt2,
    Alt3,
    Alt4,
    Alt5,
}

/// Pin logic levels.
#[derive(Debug, PartialEq, Eq, Structural, Copy, Clone)]
pub enum Level {
    Low,
    High,
}

/// Built-in pull-up/pull-down resistor states.
#[derive(Debug, PartialEq, Eq, Structural, Copy, Clone)]
pub enum PullUpDown {
    Off,
    PullDown,
    PullUp,
}

/// Interrupt trigger conditions.
#[derive(Debug, PartialEq, Eq, Structural, Copy, Clone)]
pub enum Trigger {
    Disabled,
    RisingEdge,
    FallingEdge,
    Both,
}

/// The function-select encoding of a mode.
pub open spec fn mode_bits(m: Mode) -> u32 {
    match m {
        Mode::Input => 0b000,
        Mode::Output => 0b001,
        Mode::Alt5 => 0b010,
        Mode::Alt4 => 0b011,
        Mode::Alt0 => 0b100,
        Mode::Alt1 => 0b101,
        Mode::Alt2 => 0b110,
        Mode::Alt3 => 0b111,
    }
}

/// The mode that a 3-bit function-select value stands for.
pub open spec fn mode_of_bits(b: u32) -> Mode {
    if b == 0b000 {
        Mode::Input
    } else if b == 0b001 {
        Mode::Output
    } else if b == 0b010 {
        Mode::Alt5
    } else if b == 0b011 {
        Mode::Alt4
    } else if b == 0b100 {
        Mode::Alt0
    } else if b == 0b101 {
        Mode::Alt1
    } else if b == 0b110 {
        Mode::Alt2
    } else {
        Mode::Alt3
    }
}

/// The 2-bit encoding of a pull resistor state.
pub open spec fn pull_bits(p: PullUpDown) -> u32 {
    match p {
        PullUpDown::Off => 0b00,
        PullUpDown::PullDown => 0b01,
        PullUpDown::PullUp => 0b10,
    }
}

/// The pull state that a 2-bit field stands for; the reserved value reads as off.
pub open spec fn pull_of_bits(b: u32) -> PullUpDown {
    if b == 0b01 {
        PullUpDown::PullDown
    } else if b == 0b10 {
        PullUpDown::PullUp
    } else {
        PullUpDown::Off
    }
}

pub open spec fn level_bit(l: Level) -> u32 {
    match l {
        Level::Low => 0,
        Level::High => 1,
    }
}

/// The opposite level.
pub open spec fn flip(l: Level) -> Level {
    match l {
        Level::Low => Level::High,
        Level::High => Level::Low,
    }
}

pub open spec fn level_of_bit(b: u32) -> Level {
    if b == 0 {
        Level::Low
    } else {
        Level::High
    }
}

pub open spec fn mode_name(m: Mode) -> Seq<char> {
    match m {
        Mode::Input => "In"@,
        Mode::Output => "Out"@,
        Mode::Alt0 => "Alt0"@,
        Mode::Alt1 => "Alt1"@,
        Mode::Alt2 => "Alt2"@,
        Mode::Alt3 => "Alt3"@,
        Mode::Alt4 => "Alt4"@,
        Mode::Alt5 => "Alt5"@,
    }
}

pub open spec fn level_name(l: Level) -> Seq<char> {
    match l {
        Level::Low => "Low"@,
        Level::High => "High"@,
    }
}

pub open spec fn pull_name(p: PullUpDown) -> Seq<char> {
    match p {
        PullUpDown::Off => "Off"@,
        PullUpDown::PullDown => "PullDown"@,
        PullUpDown::PullUp => "PullUp"@,
    }
}

pub open spec fn trigger_name(t: Trigger) -> Seq<char> {
    match t {
        Trigger::Disabled => "Disabled"@,
        Trigger::RisingEdge => "RisingEdge"@,
        Trigger::FallingEdge => "FallingEdge"@,
        Trigger::Both => "Both"@,
    }
}

/// Every mode survives encoding and decoding.
pub proof fn lemma_mode_bits_round_trip(m: Mode)
    ensures
        mode_bits(m) < 8,
        mode_of_bits(mode_bits(m)) == m,
{
}

/// Every pull state survives encoding and decoding.
pub proof fn lemma_pull_bits_round_trip(p: PullUpDown)
    ensures
        pull_bits(p) < 4,
        pull_of_bits(pull_bits(p)) == p,
{
}

impl Mode {
    /// The 3-bit function-select value of this mode.
    pub fn bits(&self) -> (r: u32)
        ensures
            r == mode_bits(*self),
            r < 8,
    {
        match self {
            Mode::Input => 0b000,
            Mode::Output => 0b001,
            Mode::Alt5 => 0b010,
            Mode::Alt4 => 0b011,
            Mode::Alt0 => 0b100,
            Mode::Alt1 => 0b101,
            Mode::Alt2 => 0b110,
            Mode::Alt3 => 0b111,
        }
    }

    /// The mode held in the low three bits of `b`.
    pub fn from_bits(b: u32) -> (r: Mode)
        requires
            b < 8,
        ensures
            r == mode_of_bits(b),
    {
        if b == 0b000 {
            Mode::Input
        } else if b == 0b001 {
            Mode::Output
        } else if b == 0b010 {
            Mode::Alt5
        } else if b == 0b011 {
            Mode::Alt4
        } else if b == 0b100 {
            Mode::Alt0
        } else if b == 0b101 {
            Mode::Alt1
        } else if b == 0b110 {
            Mode::Alt2
        } else {
            Mode::Alt3
        }
    }

    /// The short display name: "In", "Out", "Alt0" to "Alt5".
    pub fn to_string(&self) -> (r: String)
        ensures
            r@ == mode_name(*self),
    {
        let s: &str = match self {
            Mode::Input => "In",
            Mode::Output => "Out",
            Mode::Alt0 => "Alt0",
            Mode::Alt1 => "Alt1",
            Mode::Alt2 => "Alt2",
            Mode::Alt3 => "Alt3",
            Mode::Alt4 => "Alt4",
            Mode::Alt5 => "Alt5",
        };
        s.to_owned()
    }
}

impl Level {
    /// The register bit of this level.
    pub fn bit(&self) -> (r: u32)
        ensures
            r == level_bit(*self),
    {
        match self {
            Level::Low => 0,
            Level::High => 1,
        }
    }

    /// The level of a register bit: zero is low, anything else high.
    pub fn from_bit(b: u32) -> (r: Level)
        ensures
            r == level_of_bit(b),
    {
        if b == 0 {
            Level::Low
        } else {
            Level::High
        }
    }

    /// The opposite level.
    pub fn flipped(&self) -> (r: Level)
        ensures
            r == flip(*self),
    {
        match self {
            Level::Low => Level::High,
            Level::High => Level::Low,
        }
    }

    /// The display name: "Low" or "High".
    pub fn to_string(&self) -> (r: String)
        ensures
            r@ == level_name(*self),
    {
        let s: &str = match self {
            Level::Low => "Low",
            Level::High => "High",
        };
        s.to_owned()
    }
}

impl PullUpDown {
    /// The 2-bit field value of this pull state.
    pub fn bits(&self) -> (r: u32)
        ensures
            r == pull_bits(*self),
            r < 4,
    {
        match self {
            PullUpDown::Off => 0b00,
            PullUpDown::PullDown => 0b01,
            PullUpDown::PullUp => 0b10,
        }
    }

    /// The pull state held in a 2-bit field; the reserved value reads as off.
    pub fn from_bits(b: u32) -> (r: PullUpDown)
        ensures
            r == pull_of_bits(b),
    {
        if b == 0b01 {
            PullUpDown::PullDown
        } else if b == 0b10 {
            PullUpDown::PullUp
        } else {
            PullUpDown::Off
        }
    }

    /// The display name: "Off", "PullDown" or "PullUp".
    pub fn to_string(&self) -> (r: String)
        ensures
            r@ == pull_name(*self),
    {
        let s: &str = match self {
            PullUpDown::Off => "Off",
            PullUpDown::PullDown => "PullDown",
            PullUpDown::PullUp => "PullUp",
        };
        s.to_owned()
    }
}

impl Trigger {
    /// The display name of the trigger condition.
    pub fn to_string(&self) -> (r: String)
        ensures
            r@ == trigger_name(*self),
    {
        let s: &str = match self {
            Trigger::Disabled => "Disabled",
            Trigger::RisingEdge => "RisingEdge",
            Trigger::FallingEdge => "FallingEdge",
            Trigger::Both => "Both",
        };
        s.to_owned()
    }
}

} // verus!
