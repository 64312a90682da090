//! Geometry of the controller's display RAM. A buffer column is four horizontally adjacent
//! pixels, which take two bytes of display RAM; all column addresses sent to the controller are
//! in buffer columns.

use vstd::prelude::*;

verus! {

pub const NUM_PIXEL_COLS: u16 = 480;
pub const NUM_PIXEL_ROWS: u8 = 128;
pub const NUM_BUF_COLS: u8 = 120;
pub const PIXEL_COL_MAX: u16 = 479;
pub const PIXEL_ROW_MAX: u8 = 127;
pub const BUF_COL_MAX: u8 = 119;

} // verus!
