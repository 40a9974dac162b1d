//! Bit-flag values that make up each byte transmitted to the display.
//!
//! The bus backpack drives eight output lines from every byte it receives:
//! the upper four carry one nibble of command or character data, and the
//! lower four carry the control lines (register select, enable, backlight).
//! Each enumeration below names one group of those lines; its `bits` method
//! gives the contribution of the chosen value to a transmitted byte.

use vstd::prelude::*;

verus! {

/// Control-line flags shared by every transmitted byte.
///
/// `DisplayOn` doubles as the enable line of the bus backpack: a byte that
/// carries it latches the data nibble into the controller, and the follow-up
/// byte without it completes the latch.
pub enum DisplayControl {
    Off,
    CursorBlink,
    CursorOn,
    DisplayOn,
}

/// Backlight state, contributed as one bit to every transmitted byte.
///
/// The backlight control line shares the output register of the bus backpack
/// with the display control lines, so omitting the bit on any single write
/// would visibly flicker the backlight.
#[derive(Clone, Copy, PartialEq, Eq, Structural, Debug)]
pub enum Backlight {
    Off,
    On,
}

/// Destination register of a logical byte: the low-order bits merged into
/// each nibble frame before it is sent.
#[derive(Clone, Copy, PartialEq, Eq, Structural, Debug)]
pub enum Mode {
    Cmd,
    Data,
    DisplayControl,
    FunctionSet,
}

/// Command bytes understood by the controller.
pub enum Commands {
    Clear,
    ReturnHome,
    ShiftCursor,
}

/// Bus-width selector of the controller's function-set command.
pub enum BitMode {
    Bit4,
    Bit8,
}

impl DisplayControl {
    /// The flag's contribution to a transmitted byte.
    pub open spec fn spec_bits(self) -> u8 {
        match self {
            DisplayControl::Off => 0x00,
            DisplayControl::CursorBlink => 0x01,
            DisplayControl::CursorOn => 0x02,
            DisplayControl::DisplayOn => 0x04,
        }
    }

    /// The flag's contribution to a transmitted byte.
    #[verifier::when_used_as_spec(spec_bits)]
    pub fn bits(self) -> (r: u8)
        ensures
            r == self.spec_bits(),
    {
        match self {
            DisplayControl::Off => 0x00,
            DisplayControl::CursorBlink => 0x01,
            DisplayControl::CursorOn => 0x02,
            DisplayControl::DisplayOn => 0x04,
        }
    }
}

impl Backlight {
    /// The backlight bit contributed to every transmitted byte.
    pub open spec fn spec_bits(self) -> u8 {
        match self {
            Backlight::Off => 0x00,
            Backlight::On => 0x08,
        }
    }

    /// The backlight bit contributed to every transmitted byte.
    #[verifier::when_used_as_spec(spec_bits)]
    pub fn bits(self) -> (r: u8)
        ensures
            r == self.spec_bits(),
    {
        match self {
            Backlight::Off => 0x00,
            Backlight::On => 0x08,
        }
    }
}

impl Mode {
    /// The destination-register bits merged into each nibble frame.
    pub open spec fn spec_bits(self) -> u8 {
        match self {
            Mode::Cmd => 0x00,
            Mode::Data => 0x01,
            Mode::DisplayControl => 0x08,
            Mode::FunctionSet => 0x20,
        }
    }

    /// The destination-register bits merged into each nibble frame.
    #[verifier::when_used_as_spec(spec_bits)]
    pub fn bits(self) -> (r: u8)
        ensures
            r == self.spec_bits(),
    {
        match self {
            Mode::Cmd => 0x00,
            Mode::Data => 0x01,
            Mode::DisplayControl => 0x08,
            Mode::FunctionSet => 0x20,
        }
    }
}

impl Commands {
    /// The command's byte value.
    pub open spec fn spec_bits(self) -> u8 {
        match self {
            Commands::Clear => 0x01,
            Commands::ReturnHome => 0x02,
            Commands::ShiftCursor => 0x14,
        }
    }

    /// The command's byte value.
    #[verifier::when_used_as_spec(spec_bits)]
    pub fn bits(self) -> (r: u8)
        ensures
            r == self.spec_bits(),
    {
        match self {
            Commands::Clear => 0x01,
            Commands::ReturnHome => 0x02,
            Commands::ShiftCursor => 0x14,
        }
    }
}

impl BitMode {
    /// The width selector's contribution to a function-set nibble.
    pub open spec fn spec_bits(self) -> u8 {
        match self {
            BitMode::Bit4 => 0x00,
            BitMode::Bit8 => 0x10,
        }
    }

    /// The width selector's contribution to a function-set nibble.
    #[verifier::when_used_as_spec(spec_bits)]
    pub fn bits(self) -> (r: u8)
        ensures
            r == self.spec_bits(),
    {
        match self {
            BitMode::Bit4 => 0x00,
            BitMode::Bit8 => 0x10,
        }
    }
}

} // verus!
