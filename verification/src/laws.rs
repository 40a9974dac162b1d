//! Laws of the wire format, proved once and for all inputs.
//!
//! The contracts of the driver pin every operation's bytes down to the
//! sequences of [`crate::frames`]; the lemmas here state what those sequences
//! themselves guarantee: initialization is deterministic, a command frame has
//! the documented four-byte shape, and the backlight bit is present in every
//! transmitted byte exactly when the backlight is on.

use vstd::prelude::*;

use crate::control::Backlight;
use crate::control::BitMode;
use crate::control::Commands;
use crate::control::DisplayControl;
use crate::control::Mode;
use crate::driver::Lcd;
use crate::frames::backlight_byte;
use crate::frames::cursor_offset;
use crate::frames::display_control_byte;
use crate::frames::enable_pulse;
use crate::frames::frame;
use crate::frames::function_set_byte;
use crate::frames::init_delays;
use crate::frames::init_writes;
use crate::frames::repeated;
use crate::frames::set_cursor_writes;
use crate::frames::text_frames;
use crate::frames::ENTRY_MODE_LEFT_TO_RIGHT;

verus! {

/// Whether a transmitted byte carries the backlight bit.
pub open spec fn has_backlight_bit(byte: u8) -> bool {
    byte & 0x08 == 0x08
}

/// Whether every byte of `s` carries the backlight bit exactly when
/// `backlight` is on.
pub open spec fn backlight_consistent(s: Seq<(u8, u8)>, backlight: Backlight) -> bool {
    forall|i: int|
        0 <= i < s.len() ==> (has_backlight_bit((#[trigger] s[i]).1) <==> backlight is On)
}

/// Initialization is deterministic: the bytes of `init` are a function of
/// the configuration alone, and its delays are the same fixed sequence for
/// every configuration. Together with the contract of `Lcd::init`, which
/// appends exactly [`init_writes`] and [`init_delays`] to the logs, equal
/// configurations always produce identical bus traffic and delay calls.
pub proof fn lemma_init_deterministic(c1: Lcd, c2: Lcd)
    requires
        c1 == c2,
    ensures
        init_writes(c1) == init_writes(c2),
        init_delays() == seq![80u8, 5u8, 5u8, 5u8],
{
}

/// The exact four bytes of every frame, for every destination register: the
/// rising edges carry the nibble, the register bits, the enable line and the
/// backlight bit; the falling edges carry the backlight bit alone.
pub proof fn lemma_frame_bytes(address: u8, data: u8, mode: Mode, backlight: Backlight)
    ensures
        frame(address, data, mode, backlight).len() == 4,
        frame(address, data, mode, backlight)[0] == (
            address,
            (data & 0xf0) | mode.bits() | DisplayControl::DisplayOn.bits() | backlight.bits(),
        ),
        frame(address, data, mode, backlight)[1] == (
            address,
            DisplayControl::Off.bits() | backlight.bits(),
        ),
        frame(address, data, mode, backlight)[2] == (
            address,
            ((data << 4) & 0xf0) | mode.bits() | DisplayControl::DisplayOn.bits()
                | backlight.bits(),
        ),
        frame(address, data, mode, backlight)[3] == (
            address,
            DisplayControl::Off.bits() | backlight.bits(),
        ),
{
}

/// Nibble framing of a command-register byte: the four transmitted bytes
/// are, in order, the high nibble with the register bits, the enable line
/// and the backlight bit; the falling edge with the register and backlight
/// bits; then the same pair for the low nibble. The falling edges carry the
/// backlight bit alone, so this shape requires the command register, whose
/// register bits are zero; for the other registers the rising edges keep
/// this shape and the falling edges drop the register bits.
pub proof fn lemma_nibble_framing(address: u8, data: u8, mode: Mode, backlight: Backlight)
    requires
        mode == Mode::Cmd,
    ensures
        frame(address, data, mode, backlight) == seq![
            (
                address,
                (data & 0xf0) | mode.bits() | DisplayControl::DisplayOn.bits()
                    | backlight.bits(),
            ),
            (address, mode.bits() | backlight.bits()),
            (
                address,
                ((data << 4) & 0xf0) | mode.bits() | DisplayControl::DisplayOn.bits()
                    | backlight.bits(),
            ),
            (address, mode.bits() | backlight.bits()),
        ],
{
    assert(mode.bits() | backlight.bits() == DisplayControl::Off.bits() | backlight.bits());
    assert(frame(address, data, mode, backlight) =~= seq![
        (
            address,
            (data & 0xf0) | mode.bits() | DisplayControl::DisplayOn.bits() | backlight.bits(),
        ),
        (address, mode.bits() | backlight.bits()),
        (
            address,
            ((data << 4) & 0xf0) | mode.bits() | DisplayControl::DisplayOn.bits()
                | backlight.bits(),
        ),
        (address, mode.bits() | backlight.bits()),
    ]);
}

/// Both bytes of an enable pulse carry the backlight bit exactly when the
/// backlight is on, provided the data bits stay clear of the backlight line.
pub proof fn lemma_pulse_backlight(address: u8, data: u8, backlight: Backlight)
    requires
        data & 0x08 == 0,
    ensures
        backlight_consistent(enable_pulse(address, data, backlight), backlight),
{
    let b = backlight.bits();
    let p = enable_pulse(address, data, backlight);
    assert(b == 0x00 || b == 0x08);
    assert((data | 0x04 | b) & 0x08 == b & 0x08) by (bit_vector)
        requires
            data & 0x08 == 0,
            b == 0x00 || b == 0x08,
    ;
    assert((0x00u8 | b) & 0x08 == b & 0x08) by (bit_vector);
    assert(0x08u8 & 0x08 == 0x08 && 0x00u8 & 0x08 != 0x08) by (bit_vector);
    assert(DisplayControl::DisplayOn.bits() == 0x04);
    assert(p[0].1 == data | 0x04 | b);
    assert(p[1].1 == 0x00u8 | b);
    assert forall|i: int| 0 <= i < p.len() implies (has_backlight_bit((#[trigger] p[i]).1)
        <==> backlight is On) by {
        if i == 0 {
            assert(has_backlight_bit(p[0].1) <==> backlight is On);
        } else {
            assert(has_backlight_bit(p[1].1) <==> backlight is On);
        }
    }
}

/// Concatenation preserves backlight consistency.
pub proof fn lemma_backlight_consistent_add(a: Seq<(u8, u8)>, b: Seq<(u8, u8)>, backlight: Backlight)
    requires
        backlight_consistent(a, backlight),
        backlight_consistent(b, backlight),
    ensures
        backlight_consistent(a + b, backlight),
{
    assert forall|i: int| 0 <= i < (a + b).len() implies (has_backlight_bit(
        (#[trigger] (a + b)[i]).1,
    ) <==> backlight is On) by {
        if i < a.len() {
            assert((a + b)[i] == a[i]);
        } else {
            assert((a + b)[i] == b[i - a.len()]);
        }
    }
}

/// All four bytes of a frame carry the backlight bit exactly when the
/// backlight is on, for the registers the driver writes through frames.
pub proof fn lemma_frame_backlight(address: u8, data: u8, mode: Mode, backlight: Backlight)
    requires
        mode == Mode::Cmd || mode == Mode::Data,
    ensures
        backlight_consistent(frame(address, data, mode, backlight), backlight),
{
    let m = mode.bits();
    assert(m == 0x00 || m == 0x01);
    assert(((data & 0xf0) | m) & 0x08 == 0) by (bit_vector)
        requires
            m == 0x00 || m == 0x01,
    ;
    assert((((data << 4) & 0xf0) | m) & 0x08 == 0) by (bit_vector)
        requires
            m == 0x00 || m == 0x01,
    ;
    lemma_pulse_backlight(address, (data & 0xf0) | m, backlight);
    lemma_pulse_backlight(address, ((data << 4) & 0xf0) | m, backlight);
    lemma_backlight_consistent_add(
        enable_pulse(address, (data & 0xf0) | m, backlight),
        enable_pulse(address, ((data << 4) & 0xf0) | m, backlight),
        backlight,
    );
}

/// Repetition preserves backlight consistency.
pub proof fn lemma_repeated_backlight(s: Seq<(u8, u8)>, n: nat, backlight: Backlight)
    requires
        backlight_consistent(s, backlight),
    ensures
        backlight_consistent(repeated(s, n), backlight),
    decreases n,
{
    if n > 0 {
        lemma_repeated_backlight(s, (n - 1) as nat, backlight);
        lemma_backlight_consistent_add(repeated(s, (n - 1) as nat), s, backlight);
    }
}

/// Backlight persistence over text: every byte written by `write_str`
/// carries the backlight bit exactly when the stored backlight state is on.
pub proof fn lemma_text_frames_backlight(address: u8, text: Seq<char>, backlight: Backlight)
    ensures
        backlight_consistent(text_frames(address, text, backlight), backlight),
    decreases text.len(),
{
    if text.len() > 0 {
        lemma_text_frames_backlight(address, text.drop_last(), backlight);
        lemma_frame_backlight(address, text.last() as u8, Mode::Data, backlight);
        lemma_backlight_consistent_add(
            text_frames(address, text.drop_last(), backlight),
            frame(address, text.last() as u8, Mode::Data, backlight),
            backlight,
        );
    }
}

/// Backlight persistence over cursor positioning: every byte written by
/// `set_cursor` carries the backlight bit exactly when the stored backlight
/// state is on.
pub proof fn lemma_set_cursor_writes_backlight(address: u8, row: u8, col: u8, backlight: Backlight)
    ensures
        backlight_consistent(set_cursor_writes(address, row, col, backlight), backlight),
{
    lemma_frame_backlight(address, Commands::ReturnHome.bits(), Mode::Cmd, backlight);
    lemma_frame_backlight(address, Commands::ShiftCursor.bits(), Mode::Cmd, backlight);
    lemma_repeated_backlight(
        frame(address, Commands::ShiftCursor.bits(), Mode::Cmd, backlight),
        cursor_offset(row, col),
        backlight,
    );
    lemma_backlight_consistent_add(
        frame(address, Commands::ReturnHome.bits(), Mode::Cmd, backlight),
        repeated(
            frame(address, Commands::ShiftCursor.bits(), Mode::Cmd, backlight),
            cursor_offset(row, col),
        ),
        backlight,
    );
}

/// The standalone control byte written by `backlight` carries the backlight
/// bit exactly when the new state is on.
pub proof fn lemma_backlight_byte(backlight: Backlight)
    ensures
        has_backlight_bit(backlight_byte(backlight)) <==> backlight is On,
{
    let b = backlight.bits();
    assert(b == 0x00 || b == 0x08);
    assert((0x04u8 | b) & 0x08 == b & 0x08) by (bit_vector);
    assert(0x08u8 & 0x08 == 0x08 && 0x00u8 & 0x08 != 0x08) by (bit_vector);
}

/// Backlight persistence over initialization: every byte written by `init`
/// carries the backlight bit exactly when the configured initial backlight
/// state is on.
pub proof fn lemma_init_writes_backlight(c: Lcd)
    ensures
        backlight_consistent(init_writes(c), c.backlight_state),
{
    let bl = c.backlight_state;
    let eight = Mode::FunctionSet.bits() | BitMode::Bit8.bits();
    let four = Mode::FunctionSet.bits() | BitMode::Bit4.bits();
    assert(0x20u8 | 0x10 == 0x30 && 0x20u8 | 0x00 == 0x20) by (bit_vector);
    assert(eight == 0x30 && four == 0x20);
    assert(0x30u8 & 0x08 == 0 && 0x20u8 & 0x08 == 0) by (bit_vector);
    lemma_pulse_backlight(c.address, eight, bl);
    lemma_pulse_backlight(c.address, four, bl);
    lemma_frame_backlight(c.address, function_set_byte(c.rows), Mode::Cmd, bl);
    lemma_frame_backlight(c.address, display_control_byte(c.cursor_on, c.cursor_blink), Mode::Cmd, bl);
    lemma_frame_backlight(c.address, Mode::Cmd.bits() | Commands::Clear.bits(), Mode::Cmd, bl);
    lemma_frame_backlight(c.address, ENTRY_MODE_LEFT_TO_RIGHT, Mode::Cmd, bl);
    lemma_backlight_byte(bl);
    let tail = seq![(c.address, backlight_byte(bl))];
    assert(backlight_consistent(tail, bl)) by {
        assert(tail[0].1 == backlight_byte(bl));
    }
    let p1 = enable_pulse(c.address, eight, bl);
    let p4 = enable_pulse(c.address, four, bl);
    let f5 = frame(c.address, function_set_byte(c.rows), Mode::Cmd, bl);
    let f6 = frame(c.address, display_control_byte(c.cursor_on, c.cursor_blink), Mode::Cmd, bl);
    let f7 = frame(c.address, Mode::Cmd.bits() | Commands::Clear.bits(), Mode::Cmd, bl);
    let f8 = frame(c.address, ENTRY_MODE_LEFT_TO_RIGHT, Mode::Cmd, bl);
    lemma_backlight_consistent_add(p1, p1, bl);
    lemma_backlight_consistent_add(p1 + p1, p1, bl);
    lemma_backlight_consistent_add(p1 + p1 + p1, p4, bl);
    lemma_backlight_consistent_add(p1 + p1 + p1 + p4, f5, bl);
    lemma_backlight_consistent_add(p1 + p1 + p1 + p4 + f5, f6, bl);
    lemma_backlight_consistent_add(p1 + p1 + p1 + p4 + f5 + f6, f7, bl);
    lemma_backlight_consistent_add(p1 + p1 + p1 + p4 + f5 + f6 + f7, f8, bl);
    lemma_backlight_consistent_add(p1 + p1 + p1 + p4 + f5 + f6 + f7 + f8, tail, bl);
}

} // verus!
