use chip8gui::scale::compute_scale;
use chip8gui::scale::floor_sqrt;
use chip8gui::scale::ScaleError;

#[test]
fn scale_of_the_default_window_is_twenty() {
    assert_eq!(compute_scale(1280, 640, 64, 32), Ok(20));
}

#[test]
fn scale_of_a_window_of_the_source_size_is_one() {
    assert_eq!(compute_scale(64, 32, 64, 32), Ok(1));
}

#[test]
fn scale_of_whole_multiples_is_the_factor() {
    for factor in 0usize..40 {
        assert_eq!(compute_scale(64 * factor, 32 * factor, 64, 32), Ok(factor));
    }
}

#[test]
fn scale_takes_the_floor_of_the_root() {
    // 10000 / 2048 is about 4.88, whose root is about 2.2.
    assert_eq!(compute_scale(100, 100, 64, 32), Ok(2));
    // One pixel short of three squares along each axis.
    assert_eq!(compute_scale(191, 96, 64, 32), Ok(2));
    assert_eq!(compute_scale(192, 96, 64, 32), Ok(3));
}

#[test]
fn scale_goes_by_area_and_not_by_axis() {
    // Four times as wide and as high as the source would take: the areas
    // agree with a factor of two, though neither axis does.
    assert_eq!(compute_scale(256, 32, 64, 32), Ok(2));
    assert_eq!(compute_scale(64, 128, 64, 32), Ok(2));
}

#[test]
fn scale_of_a_window_smaller_than_the_source_is_zero() {
    assert_eq!(compute_scale(63, 32, 64, 32), Ok(0));
    assert_eq!(compute_scale(0, 0, 64, 32), Ok(0));
}

#[test]
fn scale_of_an_empty_source_is_an_error() {
    assert_eq!(compute_scale(1280, 640, 0, 32), Err(ScaleError::InvalidDimensions));
    assert_eq!(compute_scale(1280, 640, 64, 0), Err(ScaleError::InvalidDimensions));
    assert_eq!(compute_scale(0, 0, 0, 0), Err(ScaleError::InvalidDimensions));
}

#[test]
fn scale_of_the_largest_window_does_not_overflow() {
    assert_eq!(compute_scale(usize::MAX, usize::MAX, 1, 1), Ok(usize::MAX));
    assert_eq!(compute_scale(usize::MAX, usize::MAX, usize::MAX, usize::MAX), Ok(1));
    assert_eq!(compute_scale(1, 1, usize::MAX, usize::MAX), Ok(0));
}

#[test]
fn scale_squares_fit_and_the_next_do_not() {
    for width in [1usize, 7, 64, 100, 333, 1280, 1920] {
        for height in [1usize, 5, 32, 99, 640, 1080] {
            let scale = compute_scale(width, height, 64, 32).unwrap();
            assert!(scale * scale * 2048 <= width * height);
            assert!((scale + 1) * (scale + 1) * 2048 > width * height);
        }
    }
}

#[test]
fn floor_sqrt_of_small_numbers() {
    let expected = [0u128, 1, 1, 1, 2, 2, 2, 2, 2, 3, 3, 3, 3, 3, 3, 3, 4, 4];
    for (n, root) in expected.iter().enumerate() {
        assert_eq!(floor_sqrt(n as u128), *root);
    }
}

#[test]
fn floor_sqrt_at_the_edges_of_squares() {
    for root in [1u128, 2, 10, 255, 256, 65_535, 4_294_967_295, 18_446_744_073_709_551_615] {
        assert_eq!(floor_sqrt(root * root), root);
        assert_eq!(floor_sqrt(root * root - 1), root - 1);
    }
}

#[test]
fn floor_sqrt_of_the_largest_number() {
    assert_eq!(floor_sqrt(u128::MAX), 18_446_744_073_709_551_615);
}
