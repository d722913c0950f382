//! Colours, line patterns and the pixel buffers of a drawn line.
use vstd::prelude::*;

verus! {

/// Size of a framebuffer, as far as line drawing needs it.
#[derive(Copy, Clone, Debug)]
pub struct Dimensions {
    pub width: u32,
}

/// How the pixels of a horizontal line alternate between colour and background.
#[derive(Copy, Clone, Debug, PartialEq, Eq, Structural)]
pub enum LinePattern {
    /// Every pixel is coloured.
    Solid,
    /// Four pixels on, four pixels off: `_ _ _ _`.
    Dashed,
    /// One pixel on, three pixels off: `. . . .`.
    Dotted,
}

/// The colours the display can draw.
#[derive(Copy, Clone, Debug, PartialEq, Eq, Structural)]
pub enum Color {
    Red,
    Green,
    Blue,
    White,
    Black,
    Cyan,
    Yellow,
    Pink,
    Orange,
}

/// A pixel as red, green and blue intensities.
pub type Rgb = (u8, u8, u8);

/// The red, green and blue intensities of each colour.
pub open spec fn color_rgb(c: Color) -> Rgb {
    match c {
        Color::Red => (0xff, 0, 0),
        Color::Green => (0, 0xff, 0),
        Color::Blue => (0, 0, 0xff),
        Color::White => (0xff, 0xff, 0xff),
        Color::Black => (0, 0, 0),
        Color::Cyan => (0, 0xff, 0xff),
        Color::Yellow => (0xff, 0xff, 0),
        Color::Pink => (0xfe, 0x24, 0xff),
        Color::Orange => (0xff, 0xa5, 0),
    }
}

impl Color {
    /// The red, green and blue intensities of this colour.
    pub fn rgb(self) -> (rgb: Rgb)
        ensures
            rgb == color_rgb(self),
    {
        match self {
            Color::Red => (0xff, 0, 0),
            Color::Green => (0, 0xff, 0),
            Color::Blue => (0, 0, 0xff),
            Color::White => (0xff, 0xff, 0xff),
            Color::Black => (0, 0, 0),
            Color::Cyan => (0, 0xff, 0xff),
            Color::Yellow => (0xff, 0xff, 0),
            Color::Pink => (0xfe, 0x24, 0xff),
            Color::Orange => (0xff, 0xa5, 0),
        }
    }
}

/// Distinct colours have distinct intensities; black is all zero (the
/// background of patterned lines), white all full, and red, green and blue
/// are the pure primaries.
pub proof fn lemma_color_rgb(c1: Color, c2: Color)
    ensures
        c1 != c2 ==> color_rgb(c1) != color_rgb(c2),
        color_rgb(Color::Black) == (0u8, 0u8, 0u8),
        color_rgb(Color::White) == (255u8, 255u8, 255u8),
        color_rgb(Color::Red) == (255u8, 0u8, 0u8),
        color_rgb(Color::Green) == (0u8, 255u8, 0u8),
        color_rgb(Color::Blue) == (0u8, 0u8, 255u8),
{
}

/// Whether the pixel in column `col` of a line drawn with `pattern` takes
/// the line's colour (otherwise it is black background).
pub open spec fn pixel_lit(pattern: LinePattern, col: int) -> bool {
    match pattern {
        LinePattern::Solid => true,
        LinePattern::Dashed => (col / 4) % 2 == 0,
        LinePattern::Dotted => col % 4 == 0,
    }
}

/// The pixel in column `col` of a line of `color` drawn with `pattern`.
pub open spec fn line_pixel(color: Color, pattern: LinePattern, col: int) -> Rgb {
    if pixel_lit(pattern, col) {
        color_rgb(color)
    } else {
        (0, 0, 0)
    }
}

/// One row of a line `width` pixels wide, left to right.
pub open spec fn line_row(color: Color, pattern: LinePattern, width: nat) -> Seq<Rgb> {
    Seq::new(width, |col: int| line_pixel(color, pattern, col))
}

/// The buffer of a line `height` rows high and `width` pixels wide:
/// row-wise, left to right, top to bottom.
pub open spec fn line_buffer(color: Color, pattern: LinePattern, width: nat, height: nat) -> Seq<
    Rgb,
>
    decreases height,
{
    if height == 0 {
        Seq::empty()
    } else {
        line_buffer(color, pattern, width, (height - 1) as nat) + line_row(color, pattern, width)
    }
}

/// A line buffer holds `width * height` pixels, and the pixel at index `i`
/// is the pixel of column `i % width`.
#[verifier::spinoff_prover]
pub proof fn lemma_line_buffer_layout(color: Color, pattern: LinePattern, width: nat, height: nat)
    ensures
        line_buffer(color, pattern, width, height).len() == width * height,
        forall|i: int|
            0 <= i < width * height ==> #[trigger] line_buffer(color, pattern, width, height)[i]
                == line_pixel(color, pattern, i % (width as int)),
    decreases height,
{
    if height > 0 {
        let h1 = (height - 1) as nat;
        lemma_line_buffer_layout(color, pattern, width, h1);
        assert(width * h1 + width == width * height) by (nonlinear_arith)
            requires
                h1 == height - 1,
        ;
        let buf = line_buffer(color, pattern, width, height);
        assert(buf == line_buffer(color, pattern, width, h1) + line_row(color, pattern, width));
        assert(buf.len() == width * h1 + width);
        assert forall|i: int| 0 <= i < width * height implies #[trigger] buf[i] == line_pixel(
            color,
            pattern,
            i % (width as int),
        ) by {
            if i < width * h1 {
                assert(buf[i] == line_buffer(color, pattern, width, h1)[i]);
            } else {
                let c = i - width * h1;
                assert(buf[i] == line_row(color, pattern, width)[c]);
                vstd::arithmetic::div_mod::lemma_mod_multiples_vanish(
                    h1 as int,
                    c,
                    width as int,
                );
                vstd::arithmetic::div_mod::lemma_small_mod(c as nat, width);
            }
        }
    } else {
        assert(width * height == 0) by (nonlinear_arith)
            requires
                height == 0,
        ;
        assert(line_buffer(color, pattern, width, height).len() == 0);
    }
}

/// The line patterns repeat across the whole width: a solid line colours
/// every pixel; a dashed line colours columns 0-3 of every eight and leaves
/// 4-7 black; a dotted line colours column 0 of every four and leaves 1-3
/// black.
pub proof fn lemma_pattern_periods(col: int)
    requires
        col >= 0,
    ensures
        pixel_lit(LinePattern::Solid, col),
        pixel_lit(LinePattern::Dashed, col) <==> col % 8 < 4,
        pixel_lit(LinePattern::Dashed, col + 8) == pixel_lit(LinePattern::Dashed, col),
        pixel_lit(LinePattern::Dotted, col + 4) == pixel_lit(LinePattern::Dotted, col),
        0 <= col < 4 ==> pixel_lit(LinePattern::Dashed, col),
        4 <= col < 8 ==> !pixel_lit(LinePattern::Dashed, col),
        pixel_lit(LinePattern::Dotted, 0),
        1 <= col < 4 ==> !pixel_lit(LinePattern::Dotted, col),
{
}

/// In a line buffer `width` pixels wide, pixel `i` takes the line's colour
/// exactly where its column is lit by the pattern, and is black elsewhere; a
/// dashed line's pixel is coloured exactly when its column modulo 8 is below 4.
pub proof fn lemma_line_buffer_pixels(
    color: Color,
    pattern: LinePattern,
    width: nat,
    height: nat,
    i: int,
)
    requires
        0 <= i < width * height,
    ensures
        line_buffer(color, pattern, width, height).len() == width * height,
        line_buffer(color, pattern, width, height)[i] == (if pixel_lit(pattern, i % (width as int)) {
            color_rgb(color)
        } else {
            (0u8, 0u8, 0u8)
        }),
        pattern == LinePattern::Solid ==> line_buffer(color, pattern, width, height)[i]
            == color_rgb(color),
        pattern == LinePattern::Dashed ==> (line_buffer(color, pattern, width, height)[i] == (
        if (i % (width as int)) % 8 < 4 {
            color_rgb(color)
        } else {
            (0u8, 0u8, 0u8)
        })),
{
    lemma_line_buffer_layout(color, pattern, width, height);
    assert(width > 0) by (nonlinear_arith)
        requires
            0 <= i < width * height,
    ;
    lemma_pattern_periods(i % (width as int));
}

/// Whether the pixel in column `col` of a line drawn with `pattern` is coloured.
pub fn pixel_is_lit(pattern: LinePattern, col: u32) -> (lit: bool)
    ensures
        lit == pixel_lit(pattern, col as int),
{
    match pattern {
        LinePattern::Solid => true,
        LinePattern::Dashed => (col / 4) % 2 == 0,
        LinePattern::Dotted => col % 4 == 0,
    }
}

/// The pixels of a horizontal line of `color`, `width` pixels wide and
/// `height` rows high, drawn with `pattern` on a black background:
/// row-wise, left to right, top to bottom.
pub fn patterned_line_buffer(width: u32, height: u32, color: Color, pattern: LinePattern) -> (buffer:
    Vec<Rgb>)
    ensures
        buffer@ == line_buffer(color, pattern, width as nat, height as nat),
        buffer@.len() == width * height,
        forall|i: int|
            0 <= i < width * height ==> #[trigger] buffer@[i] == line_pixel(
                color,
                pattern,
                i % (width as int),
            ),
{
    let mut buffer: Vec<Rgb> = Vec::new();
    for row in 0..height
        invariant
            buffer@ == line_buffer(color, pattern, width as nat, row as nat),
    {
        let ghost before = buffer@;
        for col in 0..width
            invariant
                before == line_buffer(color, pattern, width as nat, row as nat),
                buffer@ == before + line_row(color, pattern, width as nat).take(col as int),
        {
            if pixel_is_lit(pattern, col) {
                buffer.push(color.rgb());
            } else {
                buffer.push((0, 0, 0));
            }
            assert(line_row(color, pattern, width as nat).take(col + 1) =~= line_row(
                color,
                pattern,
                width as nat,
            ).take(col as int).push(line_pixel(color, pattern, col as int)));
        }
        assert(line_row(color, pattern, width as nat).take(width as int) =~= line_row(
            color,
            pattern,
            width as nat,
        ));
    }
    proof {
        lemma_line_buffer_layout(color, pattern, width as nat, height as nat);
    }
    buffer
}

/// A display that takes whole buffers of pixels.
///
/// Implementors say how large the display is and how a buffer reaches it;
/// the drawing methods build the buffers. An implementor models its display
/// by two spec functions: its size, and the buffers it has been given so far.
pub trait GenericFramebuffer: Send + 'static {
    /// The size of the display, as `dimensions` reports it.
    spec fn spec_dimensions(&self) -> Dimensions;

    /// The buffers written to the display so far, oldest first.
    spec fn shown(&self) -> Seq<Seq<Rgb>>;

    /// The size of the display.
    fn dimensions(&self) -> (dims: Dimensions)
        ensures
            dims == self.spec_dimensions(),
    ;

    /// Shows `buffer`: pixels row-wise, left to right, top to bottom.
    fn write_buffer(&mut self, buffer: Vec<Rgb>)
        ensures
            final(self).shown() == old(self).shown().push(buffer@),
            final(self).spec_dimensions() == old(self).spec_dimensions(),
    ;

    /// Draws a solid line of `color`, `height` rows high and as wide as the display.
    fn draw_line(&mut self, color: Color, height: u32)
        ensures
            final(self).shown() == old(self).shown().push(
                line_buffer(color, LinePattern::Solid, old(self).spec_dimensions().width as nat, height as nat),
            ),
            final(self).spec_dimensions() == old(self).spec_dimensions(),
    {
        self.draw_patterned_line(color, height, LinePattern::Solid)
    }

    /// Draws a line of `color` with `pattern`, `height` rows high and as wide as
    /// the display: writes `patterned_line_buffer(width, height, color, pattern)`
    /// for the display's width.
    fn draw_patterned_line(&mut self, color: Color, height: u32, pattern: LinePattern)
        ensures
            final(self).shown() == old(self).shown().push(
                line_buffer(color, pattern, old(self).spec_dimensions().width as nat, height as nat),
            ),
            final(self).spec_dimensions() == old(self).spec_dimensions(),
    {
        let width = self.dimensions().width;
        let buffer = patterned_line_buffer(width, height, color, pattern);
        self.write_buffer(buffer)
    }
}

} // verus!
