use chip8gui::config::Config;
use chip8gui::config::Quirks;
use chip8gui::config::FRAME_BYTES;
use chip8gui::config::HEIGHT;
use chip8gui::config::INC_INDEX;
use chip8gui::config::MOD_VX_IN_PLACE;
use chip8gui::config::PIXEL_COLOR_OFF;
use chip8gui::config::PIXEL_COLOR_ON;
use chip8gui::config::SOURCE_HEIGHT;
use chip8gui::config::SOURCE_WIDTH;
use chip8gui::config::TARGET_FPS;
use chip8gui::config::VF_RESET;
use chip8gui::config::WIDTH;
use chip8gui::config::WRAP_DRAW;
use chip8gui::raster::Palette;

#[test]
fn the_raster_is_sixty_four_by_thirty_two() {
    assert_eq!(SOURCE_WIDTH, 64);
    assert_eq!(SOURCE_HEIGHT, 32);
    assert_eq!(FRAME_BYTES, SOURCE_WIDTH * SOURCE_HEIGHT / 8);
}

#[test]
fn the_default_configuration() {
    let config = Config::default();
    assert_eq!(config.window_width, 1280);
    assert_eq!(config.window_height, 640);
    assert_eq!(config.palette, Palette { on: 0x80B039, off: 0x3D521E });
    assert_eq!(config.target_fps, 240);
    assert_eq!(
        config.quirks,
        Quirks { increment_index: true, reset_flag: true, wrap_draw: false, shift_in_place: false }
    );
}

#[test]
fn the_default_configuration_is_made_of_the_constants() {
    let config = Config::default();
    assert_eq!((config.window_width, config.window_height), (WIDTH, HEIGHT));
    assert_eq!((config.palette.on, config.palette.off), (PIXEL_COLOR_ON, PIXEL_COLOR_OFF));
    assert_eq!(config.target_fps, TARGET_FPS);
    assert_eq!(config.quirks.increment_index, INC_INDEX);
    assert_eq!(config.quirks.reset_flag, VF_RESET);
    assert_eq!(config.quirks.wrap_draw, WRAP_DRAW);
    assert_eq!(config.quirks.shift_in_place, MOD_VX_IN_PLACE);
}

#[test]
fn checked_scale_of_the_default_window_is_twenty() {
    assert_eq!(Config::default().checked_scale(), Some(20));
}

#[test]
fn checked_scale_of_whole_multiples_covers_the_window() {
    for factor in 0usize..12 {
        let config = Config {
            window_width: factor * SOURCE_WIDTH,
            window_height: factor * SOURCE_HEIGHT,
            ..Config::default()
        };
        let scale = config.checked_scale().unwrap();
        assert_eq!(scale, factor);
        assert_eq!(
            scale * scale * SOURCE_WIDTH * SOURCE_HEIGHT,
            config.window_width * config.window_height
        );
    }
}

#[test]
fn checked_scale_of_a_window_of_another_shape_leaves_it_uncovered() {
    let config = Config { window_width: 1000, window_height: 700, ..Config::default() };
    let scale = config.checked_scale().unwrap();
    assert_eq!(scale, 18);
    assert!(scale * scale * SOURCE_WIDTH * SOURCE_HEIGHT < 1000 * 700);
}

#[test]
fn checked_scale_refuses_a_picture_that_no_buffer_holds() {
    let config = Config { window_width: usize::MAX, window_height: usize::MAX, ..Config::default() };
    assert_eq!(config.checked_scale(), None);
    // The largest square of whole rasters whose pixels can still be counted.
    let side = 1usize << (usize::BITS / 2 - 6);
    let fitting = Config {
        window_width: side * SOURCE_WIDTH - 1,
        window_height: side * SOURCE_HEIGHT * 2,
        ..Config::default()
    };
    assert!(fitting.checked_scale().is_some());
}
