//! Driver core for a 17 x 7 RGB LED panel made of two sub-panels, each behind
//! its own chip-select line of one SPI bus.
//!
//! The crate keeps the panel's pixels in memory, renders them into the
//! display memory layout of the two driver chips, and says, frame by frame,
//! what has to go over the bus. It performs no I/O itself: every operation
//! that reaches the panel hands out an [`Exchange`], and the owner of the bus
//! carries it out.

pub mod bus;
pub mod color;
pub mod command;
pub mod error;
pub mod hat;
pub mod lut;
pub mod matrix;

pub use bus::{Event, Exchange, Request, Side, Status};
pub use color::RGB8;
pub use command::Cmd;
pub use error::UnicornError;
pub use hat::{UnicornHATMini, DEFAULT_SPI_SPEED_HZ};
pub use lut::{COLS, LUT, ROWS};
pub use matrix::Matrix;
