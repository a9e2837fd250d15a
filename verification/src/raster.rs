//! Expansion of a bit-packed monochrome frame into a magnified buffer of
//! colours.
//!
//! A packed frame holds eight pixels to the byte, the leftmost in the most
//! significant bit, row after row from the top. Its width in pixels is given
//! beside it; its height follows from its length.

use vstd::prelude::*;
use vstd::arithmetic::div_mod::lemma_fundamental_div_mod_converse;

verus! {

/// The two colours of a monochrome picture.
#[derive(Clone, Copy, Debug, PartialEq, Eq, Structural)]
pub struct Palette {
    /// The colour of a lit pixel.
    pub on: u32,
    /// The colour of an unlit pixel.
    pub off: u32,
}

impl Palette {
    /// The colour that stands for a pixel.
    pub open spec fn colour(self, lit: bool) -> u32 {
        if lit {
            self.on
        } else {
            self.off
        }
    }

    /// The colour that stands for a pixel.
    pub fn pick(&self, lit: bool) -> (colour: u32)
        ensures
            colour == self.colour(lit),
    {
        if lit {
            self.on
        } else {
            self.off
        }
    }
}

/// Whether bit `k` of `byte` is set, counting from the most significant bit.
pub open spec fn bit_is_set(byte: u8, k: nat) -> bool {
    byte & (0x80u8 >> (k as u8)) != 0
}

/// A frame is well formed for a width: the width is a positive number of
/// whole bytes, and the frame holds whole rows only.
pub open spec fn well_formed(frame: Seq<u8>, source_width: nat) -> bool {
    &&& source_width > 0
    &&& source_width % 8 == 0
    &&& frame.len() % (source_width / 8) == 0
}

/// The number of rows in a frame of the given width.
pub open spec fn source_height(frame: Seq<u8>, source_width: nat) -> nat {
    frame.len() / (source_width / 8)
}

/// Whether the pixel in column `x` of row `y` is lit.
pub open spec fn lit(frame: Seq<u8>, source_width: nat, x: int, y: int) -> bool {
    bit_is_set(frame[y * (source_width / 8) + x / 8], (x % 8) as nat)
}

/// Row `y` of the frame, each pixel `scale` times in a run.
pub open spec fn expanded_row(
    frame: Seq<u8>,
    y: int,
    scale: nat,
    source_width: nat,
    palette: Palette,
) -> Seq<u32> {
    Seq::new(
        source_width * scale,
        |x: int| palette.colour(lit(frame, source_width, x / (scale as int), y)),
    )
}

/// The magnified picture, row-major: the pixel at column `x` and row `y` of
/// the output has the colour of the source pixel at column `x / scale` and
/// row `y / scale`.
pub open spec fn expansion(
    frame: Seq<u8>,
    scale: nat,
    source_width: nat,
    palette: Palette,
) -> Seq<u32> {
    let width: int = (source_width * scale) as int;
    Seq::new(
        (source_height(frame, source_width) * scale) * (source_width * scale),
        |i: int|
            palette.colour(
                lit(
                    frame,
                    source_width,
                    (i % width) / (scale as int),
                    (i / width) / (scale as int),
                ),
            ),
    )
}

/// Appends `count` pixels of one colour.
fn push_run(row: &mut Vec<u32>, colour: u32, count: usize)
    ensures
        final(row)@ == old(row)@ + Seq::new(count as nat, |j: int| colour),
{
    let mut n: usize = 0;
    while n < count
        invariant
            n <= count,
            row@ == old(row)@ + Seq::new(n as nat, |j: int| colour),
        decreases count - n,
    {
        row.push(colour);
        n += 1;
    }
}

/// Appends a copy of `row`.
fn push_row(pixels: &mut Vec<u32>, row: &Vec<u32>)
    ensures
        final(pixels)@ == old(pixels)@ + row@,
{
    let mut j: usize = 0;
    while j < row.len()
        invariant
            j <= row.len(),
            pixels@ == old(pixels)@ + row@.take(j as int),
        decreases row.len() - j,
    {
        pixels.push(row[j]);
        j += 1;
    }
}

/// A whole frame is as long as its rows together.
proof fn lemma_frame_length(frame: Seq<u8>, source_width: nat)
    requires
        well_formed(frame, source_width),
    ensures
        frame.len() == source_height(frame, source_width) * (source_width / 8),
        source_width / 8 > 0,
{
    let row_bytes: int = (source_width / 8) as int;
    vstd::arithmetic::div_mod::lemma_fundamental_div_mod(frame.len() as int, row_bytes);
    assert(row_bytes * (frame.len() as int / row_bytes) == (frame.len() as int / row_bytes)
        * row_bytes) by (nonlinear_arith);
}

/// Byte `b` of row `y` lies inside the frame.
proof fn lemma_byte_in_frame(y: int, b: int, height: int, row_bytes: int)
    requires
        0 <= y < height,
        0 <= b < row_bytes,
    ensures
        0 <= y * row_bytes + b < height * row_bytes,
{
    assert(0 <= y * row_bytes + b < height * row_bytes) by (nonlinear_arith)
        requires
            0 <= y < height,
            0 <= b < row_bytes,
    ;
}

/// Magnifies row `y` of the frame along the horizontal axis.
fn expand_row(frame: &[u8], y: usize, scale: usize, source_width: usize, palette: Palette) -> (row:
    Vec<u32>)
    requires
        well_formed(frame@, source_width as nat),
        y < source_height(frame@, source_width as nat),
    ensures
        row@ == expanded_row(frame@, y as int, scale as nat, source_width as nat, palette),
{
    let row_bytes: usize = source_width / 8;
    let total: usize = frame.len();
    let mut row: Vec<u32> = Vec::new();
    let mut b: usize = 0;
    proof {
        lemma_frame_length(frame@, source_width as nat);
    }
    while b < row_bytes
        invariant
            b <= row_bytes,
            row_bytes == source_width / 8,
            total == frame@.len(),
            well_formed(frame@, source_width as nat),
            y < source_height(frame@, source_width as nat),
            frame@.len() == source_height(frame@, source_width as nat) * row_bytes,
            row@.len() == (b * 8) * scale,
            forall|j: int|
                0 <= j < row@.len() ==> #[trigger] row@[j] == palette.colour(
                    lit(frame@, source_width as nat, j / (scale as int), y as int),
                ),
        decreases row_bytes - b,
    {
        proof {
            lemma_byte_in_frame(
                y as int,
                b as int,
                source_height(frame@, source_width as nat) as int,
                row_bytes as int,
            );
        }
        let byte: u8 = frame[y * row_bytes + b];
        let mut k: u8 = 0;
        while k < 8
            invariant
                k <= 8,
                b < row_bytes,
                row_bytes == source_width / 8,
                byte == frame@[y * row_bytes + b],
                row@.len() == (b * 8 + k) * scale,
                forall|j: int|
                    0 <= j < row@.len() ==> #[trigger] row@[j] == palette.colour(
                        lit(frame@, source_width as nat, j / (scale as int), y as int),
                    ),
            decreases 8 - k,
        {
            let colour: u32 = palette.pick(byte & (0x80u8 >> k) != 0);
            let ghost before: Seq<u32> = row@;
            push_run(&mut row, colour, scale);
            proof {
                let x: int = b * 8 + k;
                assert((x + 1) * scale == x * scale + scale) by (nonlinear_arith);
                assert forall|j: int| 0 <= j < row@.len() implies #[trigger] row@[j]
                    == palette.colour(
                    lit(frame@, source_width as nat, j / (scale as int), y as int),
                ) by {
                    if j >= before.len() {
                        lemma_fundamental_div_mod_converse(j, scale as int, x, j - x * scale);
                        assert(x / 8 == b && x % 8 == k);
                    }
                }
            }
            k += 1;
        }
        b += 1;
    }
    proof {
        assert((row_bytes * 8) * scale == source_width * scale);
        assert(row@ =~= expanded_row(
            frame@,
            y as int,
            scale as nat,
            source_width as nat,
            palette,
        ));
    }
    row
}

/// Magnifies a packed frame by `scale` along both axes and colours it.
///
/// The bytes are taken in order, and in each byte the bits from the most
/// significant down. Each pixel becomes a run of `scale` equal colours, and
/// each finished row is laid down `scale` times.
pub fn expand(frame: &[u8], scale: usize, source_width: usize, palette: Palette) -> (pixels: Vec<
    u32,
>)
    requires
        well_formed(frame@, source_width as nat),
        scale * scale * source_width * source_height(frame@, source_width as nat) <= usize::MAX,
    ensures
        pixels@ == expansion(frame@, scale as nat, source_width as nat, palette),
        pixels@.len() == scale * scale * source_width * source_height(
            frame@,
            source_width as nat,
        ),
{
    let row_bytes: usize = source_width / 8;
    proof {
        lemma_frame_length(frame@, source_width as nat);
    }
    let height: usize = frame.len() / row_bytes;
    let ghost width: int = source_width * scale;
    let mut pixels: Vec<u32> = Vec::new();
    let mut y: usize = 0;
    assert((y * scale) * width == 0) by (nonlinear_arith)
        requires
            y == 0,
    ;
    while y < height
        invariant
            y <= height,
            height == source_height(frame@, source_width as nat),
            well_formed(frame@, source_width as nat),
            width == source_width * scale,
            pixels@.len() == (y * scale) * width,
            forall|i: int|
                0 <= i < pixels@.len() ==> #[trigger] pixels@[i] == expansion(
                    frame@,
                    scale as nat,
                    source_width as nat,
                    palette,
                )[i],
        decreases height - y,
    {
        let row: Vec<u32> = expand_row(frame, y, scale, source_width, palette);
        let mut c: usize = 0;
        while c < scale
            invariant
                c <= scale,
                y < height,
                height == source_height(frame@, source_width as nat),
                width == source_width * scale,
                row@ == expanded_row(frame@, y as int, scale as nat, source_width as nat, palette),
                pixels@.len() == (y * scale + c) * width,
                forall|i: int|
                    0 <= i < pixels@.len() ==> #[trigger] pixels@[i] == expansion(
                        frame@,
                        scale as nat,
                        source_width as nat,
                        palette,
                    )[i],
            decreases scale - c,
        {
            let ghost before: Seq<u32> = pixels@;
            push_row(&mut pixels, &row);
            proof {
                let line: int = y * scale + c;
                assert((line + 1) * width == line * width + width) by (nonlinear_arith);
                assert(line < height * scale) by (nonlinear_arith)
                    requires
                        line == y * scale + c,
                        0 <= y < height,
                        0 <= c < scale,
                ;
                assert((line + 1) * width <= (height * scale) * width) by (nonlinear_arith)
                    requires
                        line < height * scale,
                        width >= 0,
                ;
                assert forall|i: int| 0 <= i < pixels@.len() implies #[trigger] pixels@[i]
                    == expansion(frame@, scale as nat, source_width as nat, palette)[i] by {
                    if i >= before.len() {
                        let j: int = i - line * width;
                        lemma_fundamental_div_mod_converse(i, width, line, j);
                        lemma_fundamental_div_mod_converse(
                            line,
                            scale as int,
                            y as int,
                            c as int,
                        );
                        assert(pixels@[i] == row@[j]);
                    }
                }
            }
            c += 1;
        }
        proof {
            assert((y + 1) * scale == y * scale + scale) by (nonlinear_arith);
        }
        y += 1;
    }
    proof {
        assert(pixels@ =~= expansion(frame@, scale as nat, source_width as nat, palette));
        assert((height * scale) * (source_width * scale) == scale * scale * source_width * height)
            by (nonlinear_arith);
    }
    pixels
}

/// A number below `n * d` has a quotient by `d` below `n`.
proof fn lemma_quotient_below(a: int, d: int, n: int)
    requires
        0 <= a < n * d,
        d > 0,
    ensures
        0 <= a / d < n,
        0 <= a % d < d,
{
    vstd::arithmetic::div_mod::lemma_fundamental_div_mod(a, d);
    vstd::arithmetic::div_mod::lemma_mod_bound(a, d);
    let q: int = a / d;
    let r: int = a % d;
    assert(0 <= q < n) by (nonlinear_arith)
        requires
            a == d * q + r,
            0 <= r < d,
            0 <= a < n * d,
    ;
}

/// The magnified picture has `scale * scale` pixels for each pixel of the
/// frame.
pub proof fn lemma_expansion_length(
    frame: Seq<u8>,
    scale: nat,
    source_width: nat,
    palette: Palette,
)
    ensures
        expansion(frame, scale, source_width, palette).len() == scale * scale * source_width
            * source_height(frame, source_width),
{
    let height: nat = source_height(frame, source_width);
    assert((height * scale) * (source_width * scale) == scale * scale * source_width * height)
        by (nonlinear_arith);
}

/// The pixel at column `x` and row `y` of the magnified picture has the
/// colour of the source pixel at column `x / scale` and row `y / scale`,
/// which lies inside the frame.
pub proof fn lemma_expansion_at(
    frame: Seq<u8>,
    scale: nat,
    source_width: nat,
    palette: Palette,
    x: int,
    y: int,
)
    requires
        0 <= x < source_width * scale,
        0 <= y < source_height(frame, source_width) * scale,
    ensures
        0 <= y * (source_width * scale) + x < expansion(frame, scale, source_width, palette).len(),
        0 <= x / (scale as int) < source_width,
        0 <= y / (scale as int) < source_height(frame, source_width),
        expansion(frame, scale, source_width, palette)[y * (source_width * scale) + x]
            == palette.colour(
            lit(frame, source_width, x / (scale as int), y / (scale as int)),
        ),
{
    let width: int = (source_width * scale) as int;
    let lines: int = (source_height(frame, source_width) * scale) as int;
    let i: int = y * width + x;
    assert(0 <= i < lines * width) by (nonlinear_arith)
        requires
            i == y * width + x,
            0 <= x < width,
            0 <= y < lines,
    ;
    lemma_fundamental_div_mod_converse(i, width, y, x);
    assert(scale > 0) by (nonlinear_arith)
        requires
            0 <= x < source_width * scale,
    ;
    lemma_quotient_below(x, scale as int, source_width as int);
    lemma_quotient_below(y, scale as int, source_height(frame, source_width) as int);
}

/// Magnifying is consistent across scales: each `scale` by `scale` block of
/// the magnified picture is one pixel of the picture at scale one, repeated
/// along both axes.
pub proof fn lemma_scaling_consistent(
    frame: Seq<u8>,
    scale: nat,
    source_width: nat,
    palette: Palette,
    x: int,
    y: int,
    dx: int,
    dy: int,
)
    requires
        0 <= x < source_width,
        0 <= y < source_height(frame, source_width),
        0 <= dx < scale,
        0 <= dy < scale,
    ensures
        expansion(frame, scale, source_width, palette)[(y * scale + dy) * (source_width * scale)
            + (x * scale + dx)] == expansion(frame, 1, source_width, palette)[y * source_width
            + x],
{
    let height: int = source_height(frame, source_width) as int;
    assert(0 <= x * scale + dx < source_width * scale) by (nonlinear_arith)
        requires
            0 <= x < source_width,
            0 <= dx < scale,
    ;
    assert(0 <= y * scale + dy < height * scale) by (nonlinear_arith)
        requires
            0 <= y < height,
            0 <= dy < scale,
    ;
    lemma_expansion_at(frame, scale, source_width, palette, x * scale + dx, y * scale + dy);
    lemma_fundamental_div_mod_converse(x * scale + dx, scale as int, x, dx);
    lemma_fundamental_div_mod_converse(y * scale + dy, scale as int, y, dy);
    lemma_expansion_at(frame, 1, source_width, palette, x, y);
}

/// Of the byte `0x80` the first bit is set and no other.
proof fn lemma_leading_bit(k: u8)
    by (bit_vector)
    requires
        k < 8,
    ensures
        (0x80u8 & (0x80u8 >> k) != 0) == (k == 0),
{
}

/// The most significant bit comes first: where the first byte of a frame is
/// `0x80`, the first pixel of the picture at scale one is lit and the seven
/// after it are not.
pub proof fn lemma_leading_bit_is_leftmost(
    frame: Seq<u8>,
    source_width: nat,
    palette: Palette,
    x: int,
)
    requires
        well_formed(frame, source_width),
        frame.len() > 0,
        frame[0] == 0x80,
        0 <= x < 8,
    ensures
        expansion(frame, 1, source_width, palette)[x] == palette.colour(x == 0),
{
    lemma_frame_length(frame, source_width);
    assert(source_height(frame, source_width) >= 1) by (nonlinear_arith)
        requires
            frame.len() == source_height(frame, source_width) * (source_width / 8),
            frame.len() > 0,
    ;
    lemma_expansion_at(frame, 1, source_width, palette, x, 0);
    lemma_leading_bit(x as u8);
}

/// The byte that holds the pixel at column `x` of row `y` lies inside a
/// well-formed frame.
proof fn lemma_pixel_in_frame(frame: Seq<u8>, source_width: nat, x: int, y: int)
    requires
        well_formed(frame, source_width),
        0 <= x < source_width,
        0 <= y < source_height(frame, source_width),
    ensures
        0 <= y * (source_width / 8) + x / 8 < frame.len(),
        0 <= x % 8 < 8,
{
    lemma_frame_length(frame, source_width);
    lemma_byte_in_frame(
        y,
        x / 8,
        source_height(frame, source_width) as int,
        (source_width / 8) as int,
    );
}

/// No bit of a zero byte is set, and each of the eight bits of `0xFF` is.
proof fn lemma_uniform_bytes(k: u8)
    by (bit_vector)
    requires
        k < 8,
    ensures
        0u8 & (0x80u8 >> k) == 0,
        0xFFu8 & (0x80u8 >> k) != 0,
{
}

/// A frame of zero bytes magnifies to a picture of the unlit colour alone.
pub proof fn lemma_blank_frame(frame: Seq<u8>, scale: nat, source_width: nat, palette: Palette)
    requires
        well_formed(frame, source_width),
        forall|n: int| 0 <= n < frame.len() ==> frame[n] == 0,
    ensures
        expansion(frame, scale, source_width, palette) == Seq::new(
            scale * scale * source_width * source_height(frame, source_width),
            |i: int| palette.off,
        ),
{
    lemma_uniform_picture(frame, scale, source_width, palette, 0);
}

/// A frame of `0xFF` bytes magnifies to a picture of the lit colour alone.
pub proof fn lemma_full_frame(frame: Seq<u8>, scale: nat, source_width: nat, palette: Palette)
    requires
        well_formed(frame, source_width),
        forall|n: int| 0 <= n < frame.len() ==> frame[n] == 0xFF,
    ensures
        expansion(frame, scale, source_width, palette) == Seq::new(
            scale * scale * source_width * source_height(frame, source_width),
            |i: int| palette.on,
        ),
{
    lemma_uniform_picture(frame, scale, source_width, palette, 0xFF);
}

/// A frame of one repeated byte, zero or `0xFF`, magnifies to one colour.
proof fn lemma_uniform_picture(
    frame: Seq<u8>,
    scale: nat,
    source_width: nat,
    palette: Palette,
    byte: u8,
)
    requires
        well_formed(frame, source_width),
        byte == 0 || byte == 0xFF,
        forall|n: int| 0 <= n < frame.len() ==> frame[n] == byte,
    ensures
        expansion(frame, scale, source_width, palette) == Seq::new(
            scale * scale * source_width * source_height(frame, source_width),
            |i: int| palette.colour(byte == 0xFF),
        ),
{
    let picture: Seq<u32> = expansion(frame, scale, source_width, palette);
    let width: int = (source_width * scale) as int;
    let lines: int = (source_height(frame, source_width) * scale) as int;
    lemma_expansion_length(frame, scale, source_width, palette);
    assert forall|i: int| 0 <= i < picture.len() implies picture[i] == palette.colour(
        byte == 0xFF,
    ) by {
        assert(width > 0) by (nonlinear_arith)
            requires
                0 <= i < lines * width,
                width >= 0,
        ;
        assert(scale > 0) by (nonlinear_arith)
            requires
                width == source_width * scale,
                width > 0,
        ;
        lemma_quotient_below(i, width, lines);
        let x: int = i % width;
        let y: int = i / width;
        lemma_quotient_below(x, scale as int, source_width as int);
        lemma_quotient_below(y, scale as int, source_height(frame, source_width) as int);
        lemma_pixel_in_frame(frame, source_width, x / (scale as int), y / (scale as int));
        lemma_uniform_bytes(((x / (scale as int)) % 8) as u8);
    }
    assert(picture =~= Seq::new(
        scale * scale * source_width * source_height(frame, source_width),
        |i: int| palette.colour(byte == 0xFF),
    ));
}

} // verus!
