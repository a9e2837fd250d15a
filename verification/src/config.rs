//! What the presentation is configured with: the window, the colours, the
//! frame rate, and the switches that are handed on to the machine.

use vstd::prelude::*;
use crate::raster::Palette;
use crate::raster::expansion;
use crate::raster::lemma_expansion_length;
use crate::raster::source_height;
use crate::raster::well_formed;
use crate::scale::compute_scale;
use crate::scale::is_scale;
use crate::scale::lemma_scale_exists;
use crate::scale::lemma_scale_unique;
use crate::scale::scale_of;

verus! {

/// The width of the machine's raster in pixels.
pub const SOURCE_WIDTH: usize = 64;

/// The height of the machine's raster in pixels.
pub const SOURCE_HEIGHT: usize = 32;

/// The length of the machine's packed frame in bytes.
pub const FRAME_BYTES: usize = 256;

/// The default window width in pixels.
pub const WIDTH: usize = 1280;

/// The default window height in pixels.
pub const HEIGHT: usize = 640;

/// The default colour of a lit pixel.
pub const PIXEL_COLOR_ON: u32 = 0x80B039;

/// The default colour of an unlit pixel.
pub const PIXEL_COLOR_OFF: u32 = 0x3D521E;

/// The default frame rate that the window is asked to hold.
pub const TARGET_FPS: usize = 240;

/// By default, storing or loading a range of registers moves the index
/// register along.
pub const INC_INDEX: bool = true;

/// By default, the logic instructions reset the flag register.
pub const VF_RESET: bool = true;

/// By default, sprites are clipped at the edges of the screen.
pub const WRAP_DRAW: bool = false;

/// By default, the shift instructions read the second register.
pub const MOD_VX_IN_PLACE: bool = false;

/// The machine's behavioural switches. This layer hands them on when the
/// machine is made and gives them no meaning of its own.
#[derive(Clone, Copy, Debug, PartialEq, Eq, Structural)]
pub struct Quirks {
    /// Storing or loading a range of registers moves the index register.
    pub increment_index: bool,
    /// The logic instructions reset the flag register.
    pub reset_flag: bool,
    /// Sprites drawn over an edge of the screen come back on the other side.
    pub wrap_draw: bool,
    /// The shift instructions change their first register in place.
    pub shift_in_place: bool,
}

/// The configuration of one presentation.
#[derive(Clone, Copy, Debug, PartialEq, Eq, Structural)]
pub struct Config {
    /// The window's width in pixels.
    pub window_width: usize,
    /// The window's height in pixels.
    pub window_height: usize,
    /// The colours of lit and unlit pixels.
    pub palette: Palette,
    /// The frame rate that the window is asked to hold.
    pub target_fps: usize,
    /// The switches handed on to the machine.
    pub quirks: Quirks,
}

impl Config {
    /// The default configuration: a window of 1280 by 640 pixels in two
    /// greens, at 240 frames a second.
    pub open spec fn standard() -> Config {
        Config {
            window_width: WIDTH,
            window_height: HEIGHT,
            palette: Palette { on: PIXEL_COLOR_ON, off: PIXEL_COLOR_OFF },
            target_fps: TARGET_FPS,
            quirks: Quirks {
                increment_index: INC_INDEX,
                reset_flag: VF_RESET,
                wrap_draw: WRAP_DRAW,
                shift_in_place: MOD_VX_IN_PLACE,
            },
        }
    }

    /// The magnification factor of the window over the machine's raster.
    pub open spec fn scale(&self) -> nat {
        scale_of(
            self.window_width as nat,
            self.window_height as nat,
            SOURCE_WIDTH as nat,
            SOURCE_HEIGHT as nat,
        )
    }

    /// The magnified picture has a length that a buffer can have.
    pub open spec fn fits(&self) -> bool {
        self.scale() * self.scale() * SOURCE_WIDTH * SOURCE_HEIGHT <= usize::MAX
    }

    /// The window is the machine's raster magnified by a whole factor, so
    /// that the picture covers it exactly.
    pub open spec fn covers_window(&self) -> bool {
        exists|factor: nat|
            #![trigger factor * SOURCE_WIDTH]
            self.window_width == factor * SOURCE_WIDTH && self.window_height == factor
                * SOURCE_HEIGHT
    }

    /// The picture that this configuration makes of a packed frame.
    pub open spec fn picture(&self, frame: Seq<u8>) -> Seq<u32> {
        expansion(frame, self.scale(), SOURCE_WIDTH as nat, self.palette)
    }

    /// The magnification factor, where the magnified picture fits a buffer.
    pub fn checked_scale(&self) -> (scale: Option<usize>)
        ensures
            scale is Some <==> self.fits(),
            scale matches Some(s) ==> s == self.scale(),
    {
        let s: usize = compute_scale(
            self.window_width,
            self.window_height,
            SOURCE_WIDTH,
            SOURCE_HEIGHT,
        ).unwrap();
        assert(s * s <= u128::MAX) by (nonlinear_arith)
            requires
                s <= 0xFFFF_FFFF_FFFF_FFFF,
        ;
        let square: u128 = (s as u128) * (s as u128);
        let limit: u128 = (usize::MAX as u128) / 2048;
        proof {
            assert(s * s * SOURCE_WIDTH * SOURCE_HEIGHT == square * 2048) by (nonlinear_arith)
                requires
                    square == s * s,
                    SOURCE_WIDTH == 64,
                    SOURCE_HEIGHT == 32,
            ;
        }
        if square <= limit {
            Some(s)
        } else {
            None
        }
    }
}

impl Default for Config {
    /// The default configuration.
    fn default() -> (config: Config)
        ensures
            config == Config::standard(),
    {
        Config {
            window_width: WIDTH,
            window_height: HEIGHT,
            palette: Palette { on: PIXEL_COLOR_ON, off: PIXEL_COLOR_OFF },
            target_fps: TARGET_FPS,
            quirks: Quirks {
                increment_index: INC_INDEX,
                reset_flag: VF_RESET,
                wrap_draw: WRAP_DRAW,
                shift_in_place: MOD_VX_IN_PLACE,
            },
        }
    }
}

/// A packed frame of the machine is well formed for the machine's width and
/// has the machine's height.
pub proof fn lemma_machine_frame_shape(frame: Seq<u8>)
    requires
        frame.len() == FRAME_BYTES,
    ensures
        well_formed(frame, SOURCE_WIDTH as nat),
        source_height(frame, SOURCE_WIDTH as nat) == SOURCE_HEIGHT,
{
    assert((SOURCE_WIDTH as nat) / 8 == 8);
    assert(frame.len() / 8 == 32);
}

/// The default window is the raster magnified twenty times.
pub proof fn lemma_standard_window()
    ensures
        Config::standard().scale() == 20,
        Config::standard().fits(),
        Config::standard().covers_window(),
{
    assert(WIDTH == 20 * SOURCE_WIDTH && HEIGHT == 20 * SOURCE_HEIGHT);
    lemma_exact_cover(Config::standard(), 20, Seq::new(FRAME_BYTES as nat, |i: int| 0u8));
    assert(20 * 20 * SOURCE_WIDTH * SOURCE_HEIGHT == 819200);
}

/// A window that is the raster magnified by a whole factor has that factor as
/// its scale, and its picture has one pixel for each pixel of the window.
pub proof fn lemma_exact_cover(config: Config, factor: nat, frame: Seq<u8>)
    requires
        config.window_width == factor * SOURCE_WIDTH,
        config.window_height == factor * SOURCE_HEIGHT,
        frame.len() == FRAME_BYTES,
    ensures
        config.covers_window(),
        config.scale() == factor,
        config.picture(frame).len() == config.window_width * config.window_height,
{
    let window_area: nat = (config.window_width * config.window_height) as nat;
    let source_area: nat = (SOURCE_WIDTH * SOURCE_HEIGHT) as nat;
    assert(window_area == (factor * 64) * (factor * 32));
    assert(is_scale(factor, window_area, source_area)) by (nonlinear_arith)
        requires
            window_area == (factor * 64) * (factor * 32),
            source_area == 64 * 32,
    ;
    lemma_scale_exists(
        config.window_width as nat,
        config.window_height as nat,
        SOURCE_WIDTH as nat,
        SOURCE_HEIGHT as nat,
    );
    lemma_scale_unique(factor, config.scale(), window_area, source_area);
    lemma_machine_frame_shape(frame);
    lemma_expansion_length(frame, factor, SOURCE_WIDTH as nat, config.palette);
    assert(config.picture(frame).len() == factor * factor * 64 * 32);
    assert(factor * factor * 64 * 32 == (factor * 64) * (factor * 32)) by (nonlinear_arith);
}

} // verus!
