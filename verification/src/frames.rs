//! The wire format of the driver: which bytes reach the bus, in which order,
//! for every operation.
//!
//! The controller is addressed in 4-bit mode through the backpack, so one
//! logical byte becomes two nibble transfers, and each nibble transfer is an
//! enable pulse of two bus bytes (rising edge with the data, falling edge
//! without it). These functions are the single place where that format is
//! written down; every contract of the driver is stated over them.

use vstd::prelude::*;

use crate::control::Backlight;
use crate::control::BitMode;
use crate::control::Commands;
use crate::control::DisplayControl;
use crate::control::Mode;
use crate::driver::Lcd;

verus! {

/// The byte that selects left-to-right cursor advance, sent as the last
/// command of initialization.
pub const ENTRY_MODE_LEFT_TO_RIGHT: u8 = 0x04;

/// The two bus bytes of one enable pulse carrying `data`.
///
/// The rising edge carries the data together with the enable line and the
/// backlight bit; the falling edge drops everything but the backlight bit,
/// which must be present in every transmitted byte.
pub open spec fn enable_pulse(address: u8, data: u8, backlight: Backlight) -> Seq<(u8, u8)> {
    seq![
        (address, data | DisplayControl::DisplayOn.bits() | backlight.bits()),
        (address, DisplayControl::Off.bits() | backlight.bits()),
    ]
}

/// The four bus bytes that transmit one logical byte `data` to the register
/// selected by `mode`: the high nibble's enable pulse first, then the low
/// nibble's, with the destination-register bits merged into each nibble.
pub open spec fn frame(address: u8, data: u8, mode: Mode, backlight: Backlight) -> Seq<(u8, u8)> {
    enable_pulse(address, (data & 0xf0) | mode.bits(), backlight) + enable_pulse(
        address,
        ((data << 4) & 0xf0) | mode.bits(),
        backlight,
    )
}

/// `s` concatenated with itself `n` times.
pub open spec fn repeated(s: Seq<(u8, u8)>, n: nat) -> Seq<(u8, u8)>
    decreases n,
{
    if n == 0 {
        Seq::empty()
    } else {
        repeated(s, (n - 1) as nat) + s
    }
}

/// The bus bytes that transmit `text`: one data-mode frame per character, in
/// input order, each character truncated to its low byte as the controller's
/// font table expects.
pub open spec fn text_frames(address: u8, text: Seq<char>, backlight: Backlight) -> Seq<(u8, u8)>
    decreases text.len(),
{
    if text.len() == 0 {
        Seq::empty()
    } else {
        text_frames(address, text.drop_last(), backlight) + frame(
            address,
            text.last() as u8,
            Mode::Data,
            backlight,
        )
    }
}

/// The function-set byte selecting single- or multi-line mode from the
/// configured row count: 0 rows selects single-line, anything else sets the
/// multi-line bit.
pub open spec fn function_set_byte(rows: u8) -> u8 {
    Mode::FunctionSet.bits() | (if rows == 0 {
        0x00
    } else {
        0x08
    })
}

/// The display-control byte: the display is always on, and the cursor and
/// blink bits each mirror their own configuration flag, independently of the
/// other.
pub open spec fn display_control_byte(cursor_on: bool, cursor_blink: bool) -> u8 {
    Mode::DisplayControl.bits() | (DisplayControl::DisplayOn.bits() | ((if cursor_on {
        DisplayControl::CursorOn.bits()
    } else {
        0x00
    }) | (if cursor_blink {
        DisplayControl::CursorBlink.bits()
    } else {
        0x00
    })))
}

/// The standalone control byte that applies a backlight state immediately.
pub open spec fn backlight_byte(backlight: Backlight) -> u8 {
    DisplayControl::DisplayOn.bits() | backlight.bits()
}

/// The number of single-step cursor shifts that reach `(row, col)` from the
/// origin: each physical row starts at a fixed offset of 40 in the
/// controller's linear display memory.
pub open spec fn cursor_offset(row: u8, col: u8) -> nat {
    (row * 40 + col) as nat
}

/// Every bus byte of a successful initialization, in order: the three legacy
/// 8-bit reset pulses, the single 4-bit narrowing pulse, the four configuring
/// command frames, and the standalone backlight byte.
pub open spec fn init_writes(c: Lcd) -> Seq<(u8, u8)> {
    let eight = Mode::FunctionSet.bits() | BitMode::Bit8.bits();
    let four = Mode::FunctionSet.bits() | BitMode::Bit4.bits();
    enable_pulse(c.address, eight, c.backlight_state) + enable_pulse(
        c.address,
        eight,
        c.backlight_state,
    ) + enable_pulse(c.address, eight, c.backlight_state) + enable_pulse(
        c.address,
        four,
        c.backlight_state,
    ) + frame(c.address, function_set_byte(c.rows), Mode::Cmd, c.backlight_state) + frame(
        c.address,
        display_control_byte(c.cursor_on, c.cursor_blink),
        Mode::Cmd,
        c.backlight_state,
    ) + frame(
        c.address,
        Mode::Cmd.bits() | Commands::Clear.bits(),
        Mode::Cmd,
        c.backlight_state,
    ) + frame(c.address, ENTRY_MODE_LEFT_TO_RIGHT, Mode::Cmd, c.backlight_state) + seq![
        (c.address, backlight_byte(c.backlight_state)),
    ]
}

/// Every delay of a successful initialization, in milliseconds, in order:
/// the power-on wait, then one wait after each legacy reset pulse.
pub open spec fn init_delays() -> Seq<u8> {
    seq![80u8, 5u8, 5u8, 5u8]
}

/// How many of the delays of [`init_delays`] have been requested once `n`
/// bus bytes of [`init_writes`] have been attempted.
pub open spec fn init_delays_done(n: int) -> int {
    if n <= 2 {
        1
    } else if n <= 4 {
        2
    } else if n <= 6 {
        3
    } else {
        4
    }
}

/// The bus bytes of a successful `set_cursor(row, col)`: one return-home
/// frame, then one shift-cursor frame per single-step shift.
pub open spec fn set_cursor_writes(address: u8, row: u8, col: u8, backlight: Backlight) -> Seq<
    (u8, u8),
> {
    frame(address, Commands::ReturnHome.bits(), Mode::Cmd, backlight) + repeated(
        frame(address, Commands::ShiftCursor.bits(), Mode::Cmd, backlight),
        cursor_offset(row, col),
    )
}

/// The outcomes of `n` write attempts that all succeeded.
pub open spec fn all_ok(n: int) -> Seq<bool> {
    Seq::new(n as nat, |i: int| true)
}

/// The outcomes of `n` write attempts of which exactly the last failed.
pub open spec fn fail_at_end(n: int) -> Seq<bool> {
    Seq::new(n as nat, |i: int| i < n - 1)
}

/// Holds when a failed operation stopped at the failing bus write: the write
/// log grew by a nonempty prefix of the operation's full byte sequence
/// `full`, every write of that prefix but the last succeeded, the last one
/// failed, and no later byte was attempted.
pub open spec fn aborted_early(
    writes_before: Seq<(u8, u8)>,
    writes_after: Seq<(u8, u8)>,
    results_before: Seq<bool>,
    results_after: Seq<bool>,
    full: Seq<(u8, u8)>,
) -> bool {
    exists|n: int|
        1 <= n <= full.len() && writes_after == writes_before + full.take(n) && results_after
            == results_before + fail_at_end(n)
}

/// Success outcomes concatenate.
pub proof fn lemma_all_ok_add(a: int, b: int)
    requires
        a >= 0,
        b >= 0,
    ensures
        all_ok(a) + all_ok(b) == all_ok(a + b),
{
    assert(all_ok(a) + all_ok(b) =~= all_ok(a + b));
}

/// Successes followed by a run that failed at its end form one longer run
/// that failed at its end.
pub proof fn lemma_all_ok_fail_add(a: int, n: int)
    requires
        a >= 0,
        n >= 1,
    ensures
        all_ok(a) + fail_at_end(n) == fail_at_end(a + n),
{
    assert(all_ok(a) + fail_at_end(n) =~= fail_at_end(a + n));
}

/// Cutting a concatenation inside its second part keeps the whole first
/// part: the shape of every log that stopped partway through an operation.
pub proof fn lemma_add_take(a: Seq<(u8, u8)>, b: Seq<(u8, u8)>, m: int)
    requires
        0 <= m <= b.len(),
    ensures
        (a + b).take(a.len() + m) == a + b.take(m),
{
    assert((a + b).take(a.len() as int + m) =~= a + b.take(m));
}

/// A repetition of `s` is as long as its count says.
pub proof fn lemma_repeated_len(s: Seq<(u8, u8)>, n: nat)
    ensures
        repeated(s, n).len() == n * s.len(),
    decreases n,
{
    if n > 0 {
        lemma_repeated_len(s, (n - 1) as nat);
        assert(repeated(s, n) == repeated(s, (n - 1) as nat) + s);
        assert(n * s.len() == (n - 1) as nat * s.len() + s.len()) by (nonlinear_arith)
            requires
                n >= 1,
        ;
    } else {
        assert(n * s.len() == 0) by (nonlinear_arith)
            requires
                n == 0,
        ;
    }
}

/// Cutting a repetition of `s` after `i` whole copies and `k` further
/// elements leaves those `i` copies followed by the first `k` elements of
/// `s`: what a loop over `s`-sized steps has emitted when it stops early.
pub proof fn lemma_repeated_take(s: Seq<(u8, u8)>, i: nat, n: nat, k: int)
    requires
        i < n,
        0 <= k <= s.len(),
    ensures
        repeated(s, n).take(i * s.len() + k) == repeated(s, i) + s.take(k),
    decreases n,
{
    lemma_repeated_len(s, i);
    if i == n - 1 {
        assert((repeated(s, i) + s).take(i * s.len() + k) =~= repeated(s, i) + s.take(k));
    } else {
        lemma_repeated_take(s, i, (n - 1) as nat, k);
        lemma_repeated_len(s, (n - 1) as nat);
        assert(i * s.len() + k <= (n - 1) as nat * s.len()) by (nonlinear_arith)
            requires
                i + 1 <= (n - 1) as nat,
                0 <= k <= s.len(),
        ;
        assert(repeated(s, n).take(i * s.len() + k) =~= repeated(s, (n - 1) as nat).take(
            i * s.len() + k,
        ));
    }
}

/// A text's frames are four bytes per character.
pub proof fn lemma_text_frames_len(address: u8, text: Seq<char>, backlight: Backlight)
    ensures
        text_frames(address, text, backlight).len() == 4 * text.len(),
    decreases text.len(),
{
    if text.len() > 0 {
        lemma_text_frames_len(address, text.drop_last(), backlight);
    }
}

/// Extending a text by one character appends that character's data frame.
pub proof fn lemma_text_frames_step(address: u8, text: Seq<char>, i: int, backlight: Backlight)
    requires
        0 <= i < text.len(),
    ensures
        text_frames(address, text.take(i + 1), backlight) == text_frames(
            address,
            text.take(i),
            backlight,
        ) + frame(address, text[i] as u8, Mode::Data, backlight),
{
    assert(text.take(i + 1).drop_last() =~= text.take(i));
    assert(text.take(i + 1).last() == text[i]);
}

/// Cutting a text's frames after `i` whole characters and `k` further bytes
/// leaves those characters' frames followed by the first `k` bytes of the
/// next character's frame: what `write_str` has emitted when it stops early.
pub proof fn lemma_text_frames_take(
    address: u8,
    text: Seq<char>,
    i: int,
    k: int,
    backlight: Backlight,
)
    requires
        0 <= i < text.len(),
        0 <= k <= 4,
    ensures
        text_frames(address, text, backlight).take(4 * i + k) == text_frames(
            address,
            text.take(i),
            backlight,
        ) + frame(address, text[i] as u8, Mode::Data, backlight).take(k),
    decreases text.len(),
{
    lemma_text_frames_len(address, text.drop_last(), backlight);
    if i == text.len() - 1 {
        assert(text.drop_last() =~= text.take(i));
        assert((text_frames(address, text.take(i), backlight) + frame(
            address,
            text[i] as u8,
            Mode::Data,
            backlight,
        )).take(4 * i + k) =~= text_frames(address, text.take(i), backlight) + frame(
            address,
            text[i] as u8,
            Mode::Data,
            backlight,
        ).take(k));
    } else {
        lemma_text_frames_take(address, text.drop_last(), i, k, backlight);
        assert(text.drop_last().take(i) =~= text.take(i));
        assert(text.drop_last()[i] == text[i]);
        assert(text_frames(address, text, backlight).take(4 * i + k) =~= text_frames(
            address,
            text.drop_last(),
            backlight,
        ).take(4 * i + k));
    }
}

} // verus!
