//! Driver for the Solomon Systech SSD1322 dot matrix OLED controller (up to 480 x 128 pixels,
//! 16 gray levels).
//!
//! The controller is reached over a bus that carries command words and data words
//! (`DisplayInterface`). `Command` and `BufCommand` encode the controller's command set with its
//! argument ranges and bit layouts. `Display` owns the bus, initializes the controller from a
//! `Config`, and hands out `Region`s and `OverscannedRegion`s, short-lived handles that borrow
//! the display and stream image data into a rectangle of display RAM in bounded chunks, without
//! a frame buffer in the host.

pub mod command;
pub mod config;
pub mod consts;
pub mod display;
pub mod interface;
pub mod overscanned_region;
pub mod region;

pub use command::{
    BufCommand, ColumnRemap, ComLayout, ComScanDirection, Command, DisplayMode, IncrementAxis,
    NibbleRemap,
};
pub use config::{Config, PersistentConfig};
pub use display::{Display, PixelCoord};
pub use interface::{DisplayInterface, Error, Sent, SpyFault, TestSpyInterface};
pub use overscanned_region::OverscannedRegion;
pub use region::{Region, Window};
mod stream;
