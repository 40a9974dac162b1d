//! The configuration builder, the initialization state machine, and the
//! command API.

use vstd::prelude::*;

use crate::bus::Bus;
use crate::bus::Delay;
use crate::control::Backlight;
use crate::control::BitMode;
use crate::control::Commands;
use crate::control::DisplayControl;
use crate::control::Mode;
use crate::frames::aborted_early;
use crate::frames::all_ok;
use crate::frames::backlight_byte;
use crate::frames::fail_at_end;
use crate::frames::cursor_offset;
use crate::frames::display_control_byte;
use crate::frames::function_set_byte;
use crate::frames::init_delays;
use crate::frames::init_delays_done;
use crate::frames::init_writes;
use crate::frames::enable_pulse;
use crate::frames::frame;
use crate::frames::lemma_add_take;
use crate::frames::lemma_all_ok_add;
use crate::frames::lemma_all_ok_fail_add;
use crate::frames::lemma_repeated_len;
use crate::frames::lemma_repeated_take;
use crate::frames::lemma_text_frames_len;
use crate::frames::lemma_text_frames_step;
use crate::frames::lemma_text_frames_take;
use crate::frames::repeated;
use crate::frames::set_cursor_writes;
use crate::frames::text_frames;
use crate::frames::ENTRY_MODE_LEFT_TO_RIGHT;
use vstd::string::StrSliceExecFns;

verus! {

/// Configuration of a display that has not been initialized yet.
///
/// The setters are pure: each returns an updated value, last write wins, and
/// call order is irrelevant. No field is validated — a zero address or an
/// out-of-range row count produces undefined on-device behaviour, not a
/// software error. The configuration is consumed exactly once, by
/// `Lcd::init`, which is the only way to obtain a usable [`Handle`].
#[derive(Clone, Copy, PartialEq, Eq, Structural, Debug)]
pub struct Lcd {
    /// Peripheral address on the two-wire bus.
    pub address: u8,
    /// Zero-based number of rows: 0 selects single-line mode, anything else
    /// selects multi-line mode.
    pub rows: u8,
    /// Initial backlight state, applied as the last step of initialization.
    pub backlight_state: Backlight,
    /// Whether the cursor is drawn.
    pub cursor_on: bool,
    /// Whether the cursor blinks.
    pub cursor_blink: bool,
}

impl Lcd {
    /// A configuration with the given initial backlight state and every other
    /// field at its default.
    pub fn new(backlight_state: Backlight) -> (r: Lcd)
        ensures
            r == (Lcd {
                address: 0,
                rows: 0,
                backlight_state,
                cursor_on: false,
                cursor_blink: false,
            }),
    {
        Lcd { address: 0, rows: 0, backlight_state, cursor_on: false, cursor_blink: false }
    }

    /// Sets the peripheral address.
    pub fn address(self, address: u8) -> (r: Lcd)
        ensures
            r == (Lcd { address, ..self }),
    {
        Lcd { address, ..self }
    }

    /// Sets whether the cursor is drawn.
    pub fn cursor_on(self, on: bool) -> (r: Lcd)
        ensures
            r == (Lcd { cursor_on: on, ..self }),
    {
        Lcd { cursor_on: on, ..self }
    }

    /// Sets whether the cursor blinks.
    pub fn cursor_blink(self, on: bool) -> (r: Lcd)
        ensures
            r == (Lcd { cursor_blink: on, ..self }),
    {
        Lcd { cursor_blink: on, ..self }
    }

    /// Sets the zero-based number of rows.
    pub fn rows(self, rows: u8) -> (r: Lcd)
        ensures
            r == (Lcd { rows, ..self }),
    {
        Lcd { rows, ..self }
    }

    /// Brings the controller from its unknown power-on state into ready 4-bit
    /// mode with the configured display options, consuming the configuration.
    ///
    /// The sequence is fixed: the 80 ms power-on wait; the legacy 8-bit
    /// function-set nibble three times, each followed by a 5 ms wait, which
    /// recovers the controller even from an interrupted earlier
    /// initialization; the single nibble narrowing the bus to 4 bits; then
    /// full frames for function set, display control, clear and entry mode;
    /// and finally the standalone byte applying the configured backlight.
    ///
    /// On success the log has grown by exactly [`init_writes`] and the delays
    /// by exactly [`init_delays`]. Any bus error aborts the sequence at the
    /// failing byte, is returned unchanged, and yields no handle: the
    /// hardware is then in an unspecified state.
    #[verifier::rlimit(100)]
    pub fn init<B: Bus, D: Delay>(self, bus: &mut B, delay: &mut D) -> (r: Result<
        Handle,
        B::Error,
    >)
        ensures
            r matches Ok(h) ==> h@ == self && final(bus).writes() == old(bus).writes()
                + init_writes(self) && final(bus).results() == old(bus).results() + all_ok(
                init_writes(self).len() as int,
            ) && final(delay).delays() == old(delay).delays() + init_delays(),
            r is Err ==> exists|n: int|
                1 <= n <= init_writes(self).len() && final(bus).writes() == old(bus).writes()
                    + init_writes(self).take(n) && final(bus).results() == old(bus).results()
                    + fail_at_end(n) && final(delay).delays() == old(delay).delays()
                    + init_delays().take(init_delays_done(n)),
    {
        let ghost full = init_writes(self);
        let ghost eight_pulse = enable_pulse(
            self.address,
            Mode::FunctionSet.bits() | BitMode::Bit8.bits(),
            self.backlight_state,
        );
        let ghost four_pulse = enable_pulse(
            self.address,
            Mode::FunctionSet.bits() | BitMode::Bit4.bits(),
            self.backlight_state,
        );
        let mut handle = Handle {
            address: self.address,
            rows: self.rows,
            backlight_state: self.backlight_state,
            cursor_on: self.cursor_on,
            cursor_blink: self.cursor_blink,
        };
        proof {
            assert(full.len() == 25);
        }
        // Initial wait for the controller to accept signals after power on.
        delay.delay_ms(80);

        // Recover into a known state with the legacy 8-bit function set.
        let mode_8bit = Mode::FunctionSet.bits() | BitMode::Bit8.bits();
        match handle.write4bits(bus, mode_8bit) {
            Ok(()) => {},
            Err(e) => {
                proof {
                    let n = choose|n: int|
                        1 <= n <= eight_pulse.len() && bus.writes() == old(bus).writes()
                            + eight_pulse.take(n) && bus.results() == old(bus).results()
                            + fail_at_end(n);
                    assert(bus.writes() == old(bus).writes() + full.take(n) && delay.delays()
                        == old(delay).delays() + init_delays().take(init_delays_done(n))) by {
                        assert(full.take(n) =~= eight_pulse.take(n));
                        assert(delay.delays() =~= old(delay).delays() + init_delays().take(1));
                    };
                }
                return Err(e);
            },
        }
        delay.delay_ms(5);
        match handle.write4bits(bus, mode_8bit) {
            Ok(()) => {},
            Err(e) => {
                proof {
                    let n = choose|n: int|
                        1 <= n <= eight_pulse.len() && bus.writes() == old(bus).writes()
                            + eight_pulse + eight_pulse.take(n) && bus.results() == old(
                            bus,
                        ).results() + all_ok(2) + fail_at_end(n);
                    assert(bus.writes() == old(bus).writes() + full.take(2 + n) && bus.results()
                        == old(bus).results() + fail_at_end(2 + n) && delay.delays() == old(
                        delay,
                    ).delays() + init_delays().take(init_delays_done(2 + n))) by {
                        assert(full.take(2 + n) =~= eight_pulse + eight_pulse.take(n));
                        assert(bus.writes() =~= old(bus).writes() + full.take(2 + n));
                        assert(bus.results() =~= old(bus).results() + fail_at_end(2 + n));
                        assert(delay.delays() =~= old(delay).delays() + init_delays().take(2));
                    };
                }
                return Err(e);
            },
        }
        delay.delay_ms(5);
        match handle.write4bits(bus, mode_8bit) {
            Ok(()) => {},
            Err(e) => {
                proof {
                    let n = choose|n: int|
                        1 <= n <= eight_pulse.len() && bus.writes() == old(bus).writes()
                            + eight_pulse + eight_pulse + eight_pulse.take(n) && bus.results()
                            == old(bus).results() + all_ok(2) + all_ok(2) + fail_at_end(n);
                    assert(bus.writes() == old(bus).writes() + full.take(4 + n) && bus.results()
                        == old(bus).results() + fail_at_end(4 + n) && delay.delays() == old(
                        delay,
                    ).delays() + init_delays().take(init_delays_done(4 + n))) by {
                        assert(full.take(4 + n) =~= eight_pulse + eight_pulse + eight_pulse.take(
                            n,
                        ));
                        assert(bus.writes() =~= old(bus).writes() + full.take(4 + n));
                        assert(bus.results() =~= old(bus).results() + fail_at_end(4 + n));
                        assert(delay.delays() =~= old(delay).delays() + init_delays().take(3));
                    };
                }
                return Err(e);
            },
        }
        delay.delay_ms(5);

        // Narrow the bus to 4-bit mode; every later byte is two nibbles.
        let mode_4bit = Mode::FunctionSet.bits() | BitMode::Bit4.bits();
        let ghost before_four = bus.writes();
        let ghost before_four_r = bus.results();
        match handle.write4bits(bus, mode_4bit) {
            Ok(()) => {},
            Err(e) => {
                proof {
                    let n = choose|n: int|
                        1 <= n <= four_pulse.len() && bus.writes() == before_four
                            + four_pulse.take(n) && bus.results() == before_four_r
                            + fail_at_end(n);
                    assert(bus.writes() == old(bus).writes() + full.take(6 + n) && bus.results()
                        == old(bus).results() + fail_at_end(6 + n) && delay.delays() == old(
                        delay,
                    ).delays() + init_delays().take(init_delays_done(6 + n))) by {
                        assert(full.take(6 + n) =~= eight_pulse + eight_pulse + eight_pulse
                            + four_pulse.take(n));
                        assert(bus.writes() =~= old(bus).writes() + full.take(6 + n));
                        assert(bus.results() =~= old(bus).results() + fail_at_end(6 + n));
                        assert(delay.delays() =~= old(delay).delays() + init_delays());
                        assert(init_delays().take(4) =~= init_delays());
                    };
                }
                return Err(e);
            },
        }
        let ghost pulses = eight_pulse + eight_pulse + eight_pulse + four_pulse;

        // Select single- or multi-line mode from the configured row count.
        let lines: u8 = if self.rows == 0 {
            0x00
        } else {
            0x08
        };
        let ghost lines_frame = frame(
            self.address,
            function_set_byte(self.rows),
            Mode::Cmd,
            self.backlight_state,
        );
        let ghost before_lines = bus.writes();
        let ghost before_lines_r = bus.results();
        match handle.send(bus, Mode::FunctionSet.bits() | lines, Mode::Cmd) {
            Ok(()) => {},
            Err(e) => {
                proof {
                    let n = choose|n: int|
                        1 <= n <= lines_frame.len() && bus.writes() == before_lines
                            + lines_frame.take(n) && bus.results() == before_lines_r
                            + fail_at_end(n);
                    assert(bus.writes() == old(bus).writes() + full.take(8 + n) && bus.results()
                        == old(bus).results() + fail_at_end(8 + n) && delay.delays() == old(
                        delay,
                    ).delays() + init_delays().take(init_delays_done(8 + n))) by {
                        assert(full.take(8 + n) =~= pulses + lines_frame.take(n));
                        assert(bus.writes() =~= old(bus).writes() + full.take(8 + n));
                        assert(bus.results() =~= old(bus).results() + fail_at_end(8 + n));
                        assert(init_delays().take(4) =~= init_delays());
                    };
                }
                return Err(e);
            },
        }

        // Display on; the cursor and blink bits each mirror their own flag.
        let cursor_bits: u8 = (if self.cursor_on {
            DisplayControl::CursorOn.bits()
        } else {
            0x00
        }) | (if self.cursor_blink {
            DisplayControl::CursorBlink.bits()
        } else {
            0x00
        });
        let display_ctrl = DisplayControl::DisplayOn.bits() | cursor_bits;
        let ghost ctrl_frame = frame(
            self.address,
            display_control_byte(self.cursor_on, self.cursor_blink),
            Mode::Cmd,
            self.backlight_state,
        );
        let ghost before_ctrl = bus.writes();
        let ghost before_ctrl_r = bus.results();
        proof {
            assert(Mode::DisplayControl.bits() | display_ctrl == display_control_byte(
                self.cursor_on,
                self.cursor_blink,
            ));
        }
        match handle.send(bus, Mode::DisplayControl.bits() | display_ctrl, Mode::Cmd) {
            Ok(()) => {},
            Err(e) => {
                proof {
                    let n = choose|n: int|
                        1 <= n <= ctrl_frame.len() && bus.writes() == before_ctrl
                            + ctrl_frame.take(n) && bus.results() == before_ctrl_r
                            + fail_at_end(n);
                    assert(bus.writes() == old(bus).writes() + full.take(12 + n) && bus.results()
                        == old(bus).results() + fail_at_end(12 + n) && delay.delays() == old(
                        delay,
                    ).delays() + init_delays().take(init_delays_done(12 + n))) by {
                        assert(full.take(12 + n) =~= pulses + lines_frame + ctrl_frame.take(n));
                        assert(bus.writes() =~= old(bus).writes() + full.take(12 + n));
                        assert(bus.results() =~= old(bus).results() + fail_at_end(12 + n));
                        assert(init_delays().take(4) =~= init_delays());
                    };
                }
                return Err(e);
            },
        }

        // Clear the display, which also moves the cursor to the origin.
        let ghost clear_frame = frame(
            self.address,
            Mode::Cmd.bits() | Commands::Clear.bits(),
            Mode::Cmd,
            self.backlight_state,
        );
        let ghost before_clear = bus.writes();
        let ghost before_clear_r = bus.results();
        match handle.send(bus, Mode::Cmd.bits() | Commands::Clear.bits(), Mode::Cmd) {
            Ok(()) => {},
            Err(e) => {
                proof {
                    let n = choose|n: int|
                        1 <= n <= clear_frame.len() && bus.writes() == before_clear
                            + clear_frame.take(n) && bus.results() == before_clear_r
                            + fail_at_end(n);
                    assert(bus.writes() == old(bus).writes() + full.take(16 + n) && bus.results()
                        == old(bus).results() + fail_at_end(16 + n) && delay.delays() == old(
                        delay,
                    ).delays() + init_delays().take(init_delays_done(16 + n))) by {
                        assert(full.take(16 + n) =~= pulses + lines_frame + ctrl_frame
                            + clear_frame.take(n));
                        assert(bus.writes() =~= old(bus).writes() + full.take(16 + n));
                        assert(bus.results() =~= old(bus).results() + fail_at_end(16 + n));
                        assert(init_delays().take(4) =~= init_delays());
                    };
                }
                return Err(e);
            },
        }

        // Entry mode: the cursor advances to the right after each character.
        let ghost entry_frame = frame(
            self.address,
            ENTRY_MODE_LEFT_TO_RIGHT,
            Mode::Cmd,
            self.backlight_state,
        );
        let ghost before_entry = bus.writes();
        let ghost before_entry_r = bus.results();
        match handle.send(bus, ENTRY_MODE_LEFT_TO_RIGHT, Mode::Cmd) {
            Ok(()) => {},
            Err(e) => {
                proof {
                    let n = choose|n: int|
                        1 <= n <= entry_frame.len() && bus.writes() == before_entry
                            + entry_frame.take(n) && bus.results() == before_entry_r
                            + fail_at_end(n);
                    assert(bus.writes() == old(bus).writes() + full.take(20 + n) && bus.results()
                        == old(bus).results() + fail_at_end(20 + n) && delay.delays() == old(
                        delay,
                    ).delays() + init_delays().take(init_delays_done(20 + n))) by {
                        assert(full.take(20 + n) =~= pulses + lines_frame + ctrl_frame
                            + clear_frame + entry_frame.take(n));
                        assert(bus.writes() =~= old(bus).writes() + full.take(20 + n));
                        assert(bus.results() =~= old(bus).results() + fail_at_end(20 + n));
                        assert(init_delays().take(4) =~= init_delays());
                    };
                }
                return Err(e);
            },
        }

        // Apply the configured backlight state.
        let r = handle.backlight(bus, self.backlight_state);
        proof {
            assert(bus.writes() == old(bus).writes() + full) by {
                assert(bus.writes() =~= old(bus).writes() + pulses + lines_frame + ctrl_frame
                    + clear_frame + entry_frame + seq![
                    (self.address, backlight_byte(self.backlight_state)),
                ]);
                assert(bus.writes() =~= old(bus).writes() + full);
            };
            assert(delay.delays() == old(delay).delays() + init_delays()) by {
                assert(delay.delays() =~= old(delay).delays() + init_delays());
            };
        }
        match r {
            Ok(()) => {
                proof {
                    assert(bus.results() == old(bus).results() + all_ok(full.len() as int)) by {
                        assert(bus.results() =~= old(bus).results() + all_ok(25));
                    };
                }
                Ok(handle)
            },
            Err(e) => {
                proof {
                    assert(bus.writes() == old(bus).writes() + full.take(25) && bus.results()
                        == old(bus).results() + fail_at_end(25) && delay.delays() == old(
                        delay,
                    ).delays() + init_delays().take(init_delays_done(25))) by {
                        assert(full.take(25) =~= full);
                        assert(bus.results() =~= old(bus).results() + fail_at_end(25));
                        assert(init_delays().take(4) =~= init_delays());
                    };
                }
                Err(e)
            },
        }
    }
}

/// A display that completed initialization and accepts commands.
///
/// A `Handle` exists only as the successful outcome of `Lcd::init`; its view
/// is the configuration it was initialized with, of which only the backlight
/// state changes afterwards. The transport is handed to each command rather
/// than held in the handle, which cannot store a mutable borrow: the
/// exclusive hold that protects a command's multi-write sequence is the
/// borrow for the duration of that call, and it is the caller's part to keep
/// using one transport. Hardware state after any reported bus error is
/// unspecified, and a handle that reported one must be discarded.
#[derive(Debug)]
pub struct Handle {
    address: u8,
    rows: u8,
    backlight_state: Backlight,
    cursor_on: bool,
    cursor_blink: bool,
}

impl View for Handle {
    type V = Lcd;

    closed spec fn view(&self) -> Lcd {
        Lcd {
            address: self.address,
            rows: self.rows,
            backlight_state: self.backlight_state,
            cursor_on: self.cursor_on,
            cursor_blink: self.cursor_blink,
        }
    }
}

impl Handle {
    /// Latches one nibble (already merged with its destination-register bits)
    /// into the controller: an enable pulse of two bus bytes, rising edge
    /// first. A bus error aborts the pulse at the failing byte.
    pub fn write4bits<B: Bus>(&self, bus: &mut B, data: u8) -> (r: Result<(), B::Error>)
        ensures
            r is Ok ==> final(bus).writes() == old(bus).writes() + enable_pulse(
                self@.address,
                data,
                self@.backlight_state,
            ) && final(bus).results() == old(bus).results() + all_ok(2),
            r is Err ==> aborted_early(
                old(bus).writes(),
                final(bus).writes(),
                old(bus).results(),
                final(bus).results(),
                enable_pulse(self@.address, data, self@.backlight_state),
            ),
    {
        let ghost full = enable_pulse(self@.address, data, self@.backlight_state);
        let rising = data | DisplayControl::DisplayOn.bits() | self.backlight_state.bits();
        match bus.write(self.address, rising) {
            Ok(()) => {},
            Err(e) => {
                proof {
                    assert(bus.writes() =~= old(bus).writes() + full.take(1));
                    assert(bus.results() =~= old(bus).results() + fail_at_end(1));
                }
                return Err(e);
            },
        }
        let falling = DisplayControl::Off.bits() | self.backlight_state.bits();
        let r = bus.write(self.address, falling);
        proof {
            assert(bus.writes() =~= old(bus).writes() + full);
            assert(full.take(2) =~= full);
            if r is Ok {
                assert(bus.results() =~= old(bus).results() + all_ok(2));
            } else {
                assert(bus.results() =~= old(bus).results() + fail_at_end(2));
            }
        }
        r
    }

    /// Transmits one logical byte to the register selected by `mode`: the
    /// high nibble's enable pulse, then the low nibble's, with the
    /// destination-register bits merged into each nibble. The nibble order is
    /// mandated by the controller's 4-bit bus convention. A bus error aborts
    /// the remaining bytes of the frame immediately and propagates unchanged.
    pub fn send<B: Bus>(&self, bus: &mut B, data: u8, mode: Mode) -> (r: Result<(), B::Error>)
        ensures
            r is Ok ==> final(bus).writes() == old(bus).writes() + frame(
                self@.address,
                data,
                mode,
                self@.backlight_state,
            ) && final(bus).results() == old(bus).results() + all_ok(4),
            r is Err ==> aborted_early(
                old(bus).writes(),
                final(bus).writes(),
                old(bus).results(),
                final(bus).results(),
                frame(self@.address, data, mode, self@.backlight_state),
            ),
    {
        let ghost full = frame(self@.address, data, mode, self@.backlight_state);
        let ghost high_pulse = enable_pulse(
            self@.address,
            (data & 0xf0) | mode.bits(),
            self@.backlight_state,
        );
        let ghost low_pulse = enable_pulse(
            self@.address,
            ((data << 4) & 0xf0) | mode.bits(),
            self@.backlight_state,
        );
        let high_bits: u8 = data & 0xf0;
        let low_bits: u8 = (data << 4) & 0xf0;
        match self.write4bits(bus, high_bits | mode.bits()) {
            Ok(()) => {},
            Err(e) => {
                proof {
                    let n = choose|n: int|
                        1 <= n <= high_pulse.len() && bus.writes() == old(bus).writes()
                            + high_pulse.take(n) && bus.results() == old(bus).results()
                            + fail_at_end(n);
                    assert(full.take(n) =~= high_pulse.take(n));
                }
                return Err(e);
            },
        }
        match self.write4bits(bus, low_bits | mode.bits()) {
            Ok(()) => {},
            Err(e) => {
                proof {
                    let n = choose|n: int|
                        1 <= n <= low_pulse.len() && bus.writes() == old(bus).writes()
                            + high_pulse + low_pulse.take(n) && bus.results() == old(
                            bus,
                        ).results() + all_ok(2) + fail_at_end(n);
                    assert(full.take(2 + n) =~= high_pulse + low_pulse.take(n));
                    assert(bus.writes() =~= old(bus).writes() + full.take(2 + n));
                    lemma_all_ok_fail_add(2, n);
                    assert(bus.results() =~= old(bus).results() + fail_at_end(2 + n));
                }
                return Err(e);
            },
        }
        proof {
            assert(bus.writes() =~= old(bus).writes() + full);
            lemma_all_ok_add(2, 2);
            assert(bus.results() =~= old(bus).results() + all_ok(4));
        }
        Ok(())
    }

    /// Stores the new backlight state and immediately writes one standalone
    /// control byte carrying it, so the visual change is not deferred to the
    /// next data write. The byte is attempted whether or not the bus reports
    /// an error, and the stored state is updated either way.
    pub fn backlight<B: Bus>(&mut self, bus: &mut B, backlight: Backlight) -> (r: Result<
        (),
        B::Error,
    >)
        ensures
            final(self)@ == (Lcd { backlight_state: backlight, ..old(self)@ }),
            final(bus).writes() == old(bus).writes().push(
                (old(self)@.address, backlight_byte(backlight)),
            ),
            final(bus).results() == old(bus).results().push(r is Ok),
    {
        self.backlight_state = backlight;
        bus.write(self.address, DisplayControl::DisplayOn.bits() | backlight.bits())
    }

    /// Clears the display, which also resets the cursor to the origin.
    pub fn clear<B: Bus>(&self, bus: &mut B) -> (r: Result<(), B::Error>)
        ensures
            r is Ok ==> final(bus).writes() == old(bus).writes() + frame(
                self@.address,
                Commands::Clear.bits(),
                Mode::Cmd,
                self@.backlight_state,
            ) && final(bus).results() == old(bus).results() + all_ok(4),
            r is Err ==> aborted_early(
                old(bus).writes(),
                final(bus).writes(),
                old(bus).results(),
                final(bus).results(),
                frame(self@.address, Commands::Clear.bits(), Mode::Cmd, self@.backlight_state),
            ),
    {
        self.send(bus, Commands::Clear.bits(), Mode::Cmd)
    }

    /// Returns the cursor to the upper left corner, then blocks for the 10 ms
    /// settle delay the command needs: resetting the display-memory address
    /// counter takes longer than a generic command, and there is no busy flag
    /// to poll instead. No delay is requested when the command itself fails.
    pub fn return_home<B: Bus, D: Delay>(&self, bus: &mut B, delay: &mut D) -> (r: Result<
        (),
        B::Error,
    >)
        ensures
            r is Ok ==> final(bus).writes() == old(bus).writes() + frame(
                self@.address,
                Commands::ReturnHome.bits(),
                Mode::Cmd,
                self@.backlight_state,
            ) && final(bus).results() == old(bus).results() + all_ok(4)
                && final(delay).delays() == old(delay).delays().push(10u8),
            r is Err ==> aborted_early(
                old(bus).writes(),
                final(bus).writes(),
                old(bus).results(),
                final(bus).results(),
                frame(self@.address, Commands::ReturnHome.bits(), Mode::Cmd, self@.backlight_state),
            ) && final(delay).delays() == old(delay).delays(),
    {
        match self.send(bus, Commands::ReturnHome.bits(), Mode::Cmd) {
            Ok(()) => {},
            Err(e) => {
                return Err(e);
            },
        }
        delay.delay_ms(10);
        Ok(())
    }

    /// Writes `data` to the display: one data-mode frame per character, in
    /// input order. Each character code is truncated to one byte, matching
    /// the controller's built-in font table; no encoding translation is
    /// performed, so characters above one byte address undefined glyphs. A
    /// bus error aborts the remaining bytes immediately.
    pub fn write_str<B: Bus>(&self, bus: &mut B, data: &str) -> (r: Result<(), B::Error>)
        ensures
            r is Ok ==> final(bus).writes() == old(bus).writes() + text_frames(
                self@.address,
                data@,
                self@.backlight_state,
            ) && final(bus).results() == old(bus).results() + all_ok(
                text_frames(self@.address, data@, self@.backlight_state).len() as int,
            ),
            r is Err ==> aborted_early(
                old(bus).writes(),
                final(bus).writes(),
                old(bus).results(),
                final(bus).results(),
                text_frames(self@.address, data@, self@.backlight_state),
            ),
    {
        let ghost full = text_frames(self@.address, data@, self@.backlight_state);
        let len = data.unicode_len();
        let mut i: usize = 0;
        while i < len
            invariant
                i <= len,
                len == data@.len(),
                full == text_frames(self@.address, data@, self@.backlight_state),
                bus.writes() == old(bus).writes() + text_frames(
                    self@.address,
                    data@.take(i as int),
                    self@.backlight_state,
                ),
                bus.results() == old(bus).results() + all_ok(4 * i as int),
            decreases len - i,
        {
            let c = data.get_char(i);
            let b = #[verifier::truncate] (c as u8);
            match self.send(bus, b, Mode::Data) {
                Ok(()) => {
                    proof {
                        lemma_text_frames_step(
                            self@.address,
                            data@,
                            i as int,
                            self@.backlight_state,
                        );
                        lemma_all_ok_add(4 * i as int, 4);
                        assert(bus.results() =~= old(bus).results() + all_ok(
                            4 * (i + 1) as int,
                        ));
                    }
                },
                Err(e) => {
                    proof {
                        assert(b == data@[i as int] as u8);
                        let ghost before = old(bus).writes() + text_frames(
                            self@.address,
                            data@.take(i as int),
                            self@.backlight_state,
                        );
                        let shift = frame(self@.address, b, Mode::Data, self@.backlight_state);
                        assert(shift.len() == 4);
                        let k = choose|k: int|
                            1 <= k <= shift.len() && bus.writes() == before + shift.take(k)
                                && bus.results() == old(bus).results() + all_ok(4 * i as int)
                                + fail_at_end(k);
                        lemma_text_frames_len(self@.address, data@, self@.backlight_state);
                        lemma_text_frames_take(
                            self@.address,
                            data@,
                            i as int,
                            k,
                            self@.backlight_state,
                        );
                        assert(full.take(4 * i + k) == text_frames(
                            self@.address,
                            data@.take(i as int),
                            self@.backlight_state,
                        ) + shift.take(k));
                        assert(bus.writes() =~= old(bus).writes() + full.take(4 * i + k));
                        lemma_all_ok_fail_add(4 * i as int, k);
                        assert(bus.results() =~= old(bus).results() + fail_at_end(4 * i + k));
                    }
                    return Err(e);
                },
            }
            i = i + 1;
        }
        proof {
            assert(data@.take(len as int) =~= data@);
            lemma_text_frames_len(self@.address, data@, self@.backlight_state);
            assert(bus.results() =~= old(bus).results() + all_ok(full.len() as int));
        }
        Ok(())
    }

    /// Moves the cursor to the zero-based `(row, col)` position: one
    /// return-home command (with its settle delay), then exactly
    /// `row * 40 + col` single-step cursor shifts, since each physical row
    /// starts at a fixed offset of 40 in the controller's linear display
    /// memory. Cost is linear in the target offset. A bus error aborts the
    /// remaining bytes immediately; the settle delay is requested exactly
    /// when the return-home frame completed.
    pub fn set_cursor<B: Bus, D: Delay>(&self, bus: &mut B, row: u8, col: u8, delay: &mut D) -> (r:
        Result<(), B::Error>)
        requires
            row * 40 + col <= u8::MAX,
        ensures
            r is Ok ==> final(bus).writes() == old(bus).writes() + set_cursor_writes(
                self@.address,
                row,
                col,
                self@.backlight_state,
            ) && final(bus).results() == old(bus).results() + all_ok(
                set_cursor_writes(self@.address, row, col, self@.backlight_state).len() as int,
            ) && final(delay).delays() == old(delay).delays().push(10u8),
            r is Err ==> exists|n: int|
                1 <= n <= set_cursor_writes(self@.address, row, col, self@.backlight_state).len()
                    && final(bus).writes() == old(bus).writes() + set_cursor_writes(
                    self@.address,
                    row,
                    col,
                    self@.backlight_state,
                ).take(n) && final(bus).results() == old(bus).results() + fail_at_end(n)
                    && final(delay).delays() == (if n <= 4 {
                    old(delay).delays()
                } else {
                    old(delay).delays().push(10u8)
                }),
    {
        let ghost full = set_cursor_writes(self@.address, row, col, self@.backlight_state);
        let ghost home = frame(
            self@.address,
            Commands::ReturnHome.bits(),
            Mode::Cmd,
            self@.backlight_state,
        );
        let ghost step = frame(
            self@.address,
            Commands::ShiftCursor.bits(),
            Mode::Cmd,
            self@.backlight_state,
        );
        proof {
            lemma_repeated_len(step, cursor_offset(row, col));
            assert(home.len() == 4);
            assert(step.len() == 4);
        }
        match self.return_home(bus, delay) {
            Ok(()) => {},
            Err(e) => {
                proof {
                    let n = choose|n: int|
                        1 <= n <= home.len() && bus.writes() == old(bus).writes() + home.take(n)
                            && bus.results() == old(bus).results() + fail_at_end(n);
                    assert(full.take(n) =~= home.take(n));
                }
                return Err(e);
            },
        }
        let shift: u8 = row * 40 + col;
        let mut i: u8 = 0;
        while i < shift
            invariant
                i <= shift,
                shift == cursor_offset(row, col),
                step == frame(
                    self@.address,
                    Commands::ShiftCursor.bits(),
                    Mode::Cmd,
                    self@.backlight_state,
                ),
                home == frame(
                    self@.address,
                    Commands::ReturnHome.bits(),
                    Mode::Cmd,
                    self@.backlight_state,
                ),
                full == set_cursor_writes(self@.address, row, col, self@.backlight_state),
                bus.writes() == old(bus).writes() + home + repeated(step, i as nat),
                bus.results() == old(bus).results() + all_ok(4 + 4 * i as int),
                delay.delays() == old(delay).delays().push(10u8),
            decreases shift - i,
        {
            match self.send(bus, Commands::ShiftCursor.bits(), Mode::Cmd) {
                Ok(()) => {
                    proof {
                        assert(repeated(step, (i + 1) as nat) == repeated(step, i as nat) + step);
                        assert(old(bus).writes() + home + repeated(step, i as nat) + step
                            =~= old(bus).writes() + home + repeated(step, (i + 1) as nat));
                        lemma_all_ok_add(4 + 4 * i as int, 4);
                        assert(bus.results() =~= old(bus).results() + all_ok(
                            4 + 4 * (i + 1) as int,
                        ));
                    }
                },
                Err(e) => {
                    proof {
                        let ghost before = old(bus).writes() + home + repeated(step, i as nat);
                        let k = choose|k: int|
                            1 <= k <= step.len() && bus.writes() == before + step.take(k)
                                && bus.results() == old(bus).results() + all_ok(4 + 4 * i as int)
                                + fail_at_end(k);
                        lemma_all_ok_fail_add(4 + 4 * i as int, k);
                        assert(bus.results() =~= old(bus).results() + fail_at_end(
                            4 + (i as int) * 4 + k,
                        ));
                        lemma_repeated_len(step, cursor_offset(row, col));
                        assert(home.len() == 4);
                        assert(step.len() == 4);
                        lemma_repeated_take(step, i as nat, cursor_offset(row, col), k);
                        assert(repeated(step, cursor_offset(row, col)).take((i as int) * 4 + k)
                            == repeated(step, i as nat) + step.take(k));
                        assert(full == home + repeated(step, cursor_offset(row, col)));
                        assert(i < cursor_offset(row, col));
                        assert(repeated(step, cursor_offset(row, col)).len() == cursor_offset(
                            row,
                            col,
                        ) * 4);
                        assert((i as int) * 4 + k <= cursor_offset(row, col) * 4);
                        lemma_add_take(
                            home,
                            repeated(step, cursor_offset(row, col)),
                            (i as int) * 4 + k,
                        );
                        assert(full.take(4 + (i as int) * 4 + k) == home + repeated(
                            step,
                            cursor_offset(row, col),
                        ).take((i as int) * 4 + k));
                        assert(full.take(4 + (i as int) * 4 + k) =~= home + repeated(
                            step,
                            i as nat,
                        ) + step.take(k));
                        assert(bus.writes() =~= old(bus).writes() + full.take(
                            4 + (i as int) * 4 + k,
                        ));
                    }
                    return Err(e);
                },
            }
            i = i + 1;
        }
        proof {
            assert(old(bus).writes() + home + repeated(step, cursor_offset(row, col)) =~= old(
                bus,
            ).writes() + full);
            assert(full.len() as int == 4 + 4 * cursor_offset(row, col));
            assert(bus.results() =~= old(bus).results() + all_ok(full.len() as int));
        }
        Ok(())
    }
}

} // verus!
