//! Driver core for character displays built around an HD44780-compatible
//! controller that is reached over a byte-oriented two-wire bus backpack.
//!
//! The controller is write-only here: there is no busy-flag read-back, so
//! correctness rests entirely on emitting the right bytes in the right order
//! with the right delays. Every contract in this crate therefore speaks about
//! the exact sequence of bytes handed to the bus and the exact sequence of
//! delays requested.

pub mod bus;
pub mod control;
pub mod driver;
pub mod frames;
pub mod laws;
pub mod mock;

pub use bus::Bus;
pub use bus::Delay;
pub use control::Backlight;
pub use control::BitMode;
pub use control::Commands;
pub use control::DisplayControl;
pub use control::Mode;
pub use driver::Handle;
pub use driver::Lcd;
pub use mock::BusFault;
pub use mock::MockBus;
pub use mock::MockDelay;
