//! Presentation layer for a CHIP-8 machine: it magnifies the machine's
//! bit-packed monochrome frame into a colour pixel buffer, folds the held
//! keys of a keyboard into the sixteen-key mask that the machine reads, and
//! decides, step by step, what a frame loop does next.
//!
//! - [`scale`]: the magnification factor of a window over the raster.
//! - [`raster`]: the expansion of a packed frame into a picture.
//! - [`keypad`]: the pad's layout and the mask of the held keys.
//! - [`config`]: the window, the colours and the machine's switches.
//! - [`cadence`]: the order of a frame, as a presenter that hands out one
//!   action at a time.
//! - [`machine`]: what a frame asks of the machine itself, performed on it.
//!
//! The functions here are verified against the contracts they carry. What
//! is believed and not proved is what three accessors of the machine do, in
//! [`machine`].

pub mod cadence;
pub mod config;
pub mod keypad;
pub mod machine;
pub mod raster;
pub mod scale;

pub use crate::config::HEIGHT;
pub use crate::config::INC_INDEX;
pub use crate::config::MOD_VX_IN_PLACE;
pub use crate::config::VF_RESET;
pub use crate::config::WIDTH;
pub use crate::config::WRAP_DRAW;
pub use crate::machine::display_buffer;
