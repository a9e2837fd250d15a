//! The magnification factor: how many window pixels one source pixel takes
//! along each axis.

use vstd::prelude::*;

verus! {

/// Why no magnification factor exists.
#[derive(Clone, Copy, Debug, PartialEq, Eq, Structural)]
pub enum ScaleError {
    /// The source raster has no pixels.
    InvalidDimensions,
}

/// `s` is the floor of the square root of `window_area / source_area`, the
/// quotient taken in the rationals: the source magnified `s` times along
/// both axes has no more pixels than the window, and magnified `s + 1` times
/// it has more.
pub open spec fn is_scale(s: nat, window_area: nat, source_area: nat) -> bool {
    s * s * source_area <= window_area < (s + 1) * (s + 1) * source_area
}

/// The magnification factor of a window over a source raster. Where the
/// source raster has a pixel there is exactly one; see
/// [`lemma_scale_exists`] and [`lemma_scale_unique`].
pub open spec fn scale_of(
    window_width: nat,
    window_height: nat,
    source_width: nat,
    source_height: nat,
) -> nat {
    area_scale(window_width * window_height, source_width * source_height)
}

/// The scale of a window area over a source area.
pub open spec fn area_scale(window_area: nat, source_area: nat) -> nat {
    choose|s: nat| #[trigger] is_scale(s, window_area, source_area)
}

/// At most one number is the scale of a given pair of areas.
pub proof fn lemma_scale_unique(s: nat, t: nat, window_area: nat, source_area: nat)
    requires
        is_scale(s, window_area, source_area),
        is_scale(t, window_area, source_area),
    ensures
        s == t,
{
    assert(s == t) by (nonlinear_arith)
        requires
            s * s * source_area <= window_area < (s + 1) * (s + 1) * source_area,
            t * t * source_area <= window_area < (t + 1) * (t + 1) * source_area,
    {
        if s < t {
            assert((s + 1) * (s + 1) <= t * t);
            assert((s + 1) * (s + 1) * source_area <= t * t * source_area);
        } else if t < s {
            assert((t + 1) * (t + 1) <= s * s);
            assert((t + 1) * (t + 1) * source_area <= s * s * source_area);
        }
    }
}

/// Every number has a floor of its square root.
proof fn lemma_root_exists(n: nat)
    ensures
        exists|root: nat| #[trigger] is_scale(root, n, 1),
    decreases n,
{
    if n == 0 {
        assert(is_scale(0, 0, 1)) by (nonlinear_arith);
    } else {
        lemma_root_exists((n - 1) as nat);
        let below: nat = choose|root: nat| #[trigger] is_scale(root, (n - 1) as nat, 1);
        if (below + 1) * (below + 1) <= n {
            assert(is_scale(below + 1, n, 1)) by (nonlinear_arith)
                requires
                    below * below * 1 <= n - 1 < (below + 1) * (below + 1) * 1,
                    (below + 1) * (below + 1) <= n,
            ;
        } else {
            assert(is_scale(below, n, 1)) by (nonlinear_arith)
                requires
                    below * below * 1 <= n - 1 < (below + 1) * (below + 1) * 1,
                    (below + 1) * (below + 1) > n,
            ;
        }
    }
}

/// A source raster with a pixel has a scale in every window, and
/// [`scale_of`] is that scale.
pub proof fn lemma_scale_exists(
    window_width: nat,
    window_height: nat,
    source_width: nat,
    source_height: nat,
)
    requires
        source_width * source_height > 0,
    ensures
        is_scale(
            scale_of(window_width, window_height, source_width, source_height),
            window_width * window_height,
            source_width * source_height,
        ),
{
    let window_area: nat = window_width * window_height;
    let source_area: nat = source_width * source_height;
    lemma_root_exists(window_area / source_area);
    let root: nat = choose|root: nat| #[trigger] is_scale(root, window_area / source_area, 1);
    assert(root * root <= window_area / source_area < (root + 1) * (root + 1))
        by (nonlinear_arith)
        requires
            root * root * 1 <= window_area / source_area < (root + 1) * (root + 1) * 1,
    ;
    lemma_root_is_scale(root, window_area, source_area);
}

/// A window with at least as many pixels as the source raster has a scale
/// of at least one, and a smaller window has a scale of zero.
pub proof fn lemma_scale_positive(
    window_width: nat,
    window_height: nat,
    source_width: nat,
    source_height: nat,
)
    requires
        source_width * source_height > 0,
    ensures
        scale_of(window_width, window_height, source_width, source_height) >= 1
            <==> window_width * window_height >= source_width * source_height,
{
    let s: nat = scale_of(window_width, window_height, source_width, source_height);
    let window_area: nat = window_width * window_height;
    let source_area: nat = source_width * source_height;
    lemma_scale_exists(window_width, window_height, source_width, source_height);
    assert(s >= 1 <==> window_area >= source_area) by (nonlinear_arith)
        requires
            s * s * source_area <= window_area < (s + 1) * (s + 1) * source_area,
            source_area > 0,
    {
        if s >= 1 {
            assert(s * s >= 1);
            assert(s * s * source_area >= source_area);
        }
    }
}

/// The floor of the square root of `n`.
pub fn floor_sqrt(n: u128) -> (root: u128)
    ensures
        root * root <= n < (root + 1) * (root + 1),
        root < 0x1_0000_0000_0000_0000,
{
    let mut low: u128 = 0;
    let mut high: u128 = 0x1_0000_0000_0000_0000;
    assert(n < high * high) by (nonlinear_arith)
        requires
            n <= u128::MAX,
            high == 0x1_0000_0000_0000_0000,
    ;
    while high - low > 1
        invariant
            low < high <= 0x1_0000_0000_0000_0000,
            low * low <= n < high * high,
        decreases high - low,
    {
        let mid: u128 = low + (high - low) / 2;
        assert(mid * mid <= u128::MAX) by (nonlinear_arith)
            requires
                mid < 0x1_0000_0000_0000_0000,
        ;
        if mid * mid <= n {
            low = mid;
        } else {
            high = mid;
        }
    }
    low
}

/// The magnification factor of a `window_width` by `window_height` window
/// over a `source_width` by `source_height` raster: the floor of the square
/// root of the ratio of the two areas. It is one factor for both axes, taken
/// from the areas alone, so it fills the window only where the window has the
/// raster's aspect ratio.
///
/// A raster without pixels has no factor.
pub fn compute_scale(
    window_width: usize,
    window_height: usize,
    source_width: usize,
    source_height: usize,
) -> (result: Result<usize, ScaleError>)
    ensures
        result is Err <==> source_width * source_height == 0,
        result matches Err(error) ==> error == ScaleError::InvalidDimensions,
        result matches Ok(s) ==> is_scale(
            s as nat,
            (window_width * window_height) as nat,
            (source_width * source_height) as nat,
        ) && s == scale_of(
            window_width as nat,
            window_height as nat,
            source_width as nat,
            source_height as nat,
        ),
{
    assert(source_width * source_height <= u128::MAX) by (nonlinear_arith)
        requires
            source_width <= 0xFFFF_FFFF_FFFF_FFFF,
            source_height <= 0xFFFF_FFFF_FFFF_FFFF,
    ;
    assert(window_width * window_height <= u128::MAX) by (nonlinear_arith)
        requires
            window_width <= 0xFFFF_FFFF_FFFF_FFFF,
            window_height <= 0xFFFF_FFFF_FFFF_FFFF,
    ;
    let source_area: u128 = (source_width as u128) * (source_height as u128);
    if source_area == 0 {
        return Err(ScaleError::InvalidDimensions);
    }
    let window_area: u128 = (window_width as u128) * (window_height as u128);
    let ratio: u128 = window_area / source_area;
    let root: u128 = floor_sqrt(ratio);
    proof {
        lemma_root_is_scale(root as nat, window_area as nat, source_area as nat);
        lemma_scale_within_sides(
            root as nat,
            window_width as nat,
            window_height as nat,
            source_area as nat,
        );
        let chosen: nat = scale_of(
            window_width as nat,
            window_height as nat,
            source_width as nat,
            source_height as nat,
        );
        lemma_scale_unique(root as nat, chosen, window_area as nat, source_area as nat);
    }
    Ok(root as usize)
}

/// The floor of the square root of the integer quotient is the scale: taking
/// the floor of the quotient first loses nothing.
proof fn lemma_root_is_scale(root: nat, window_area: nat, source_area: nat)
    requires
        source_area > 0,
        root * root <= window_area / source_area < (root + 1) * (root + 1),
    ensures
        is_scale(root, window_area, source_area),
{
    let ratio: nat = window_area / source_area;
    assert(window_area == source_area * ratio + window_area % source_area
        && window_area % source_area < source_area) by {
        vstd::arithmetic::div_mod::lemma_fundamental_div_mod(
            window_area as int,
            source_area as int,
        );
        vstd::arithmetic::div_mod::lemma_mod_bound(window_area as int, source_area as int);
    }
    let rest: nat = window_area % source_area;
    assert(root * root * source_area <= window_area < (root + 1) * (root + 1) * source_area)
        by (nonlinear_arith)
        requires
            source_area > 0,
            root * root <= ratio,
            ratio + 1 <= (root + 1) * (root + 1),
            window_area == source_area * ratio + rest,
            rest < source_area,
    ;
}

/// A scale is no larger than the longer side of the window.
proof fn lemma_scale_within_sides(s: nat, width: nat, height: nat, source_area: nat)
    requires
        s * s * source_area <= width * height,
        source_area > 0,
    ensures
        s <= width || s <= height,
{
    assert(s <= width || s <= height) by (nonlinear_arith)
        requires
            s * s * source_area <= width * height,
            source_area > 0,
    {
        if s > width && s > height {
            assert(s * s > width * height);
            assert(s * s * source_area >= s * s);
        }
    }
}

} // verus!
