//! The wire format: one `PX <x> <y> <rrggbbaa>` line per pixel, the pixels of
//! a column taken strip by strip from left to right, each strip from top to
//! bottom.

use vstd::prelude::*;
use crate::column::Column;
use crate::raster::{Image, ImageView, Rgb};
use crate::traversal::lemma_one_line_per_pixel;

verus! {

/// ASCII `P`.
pub const LETTER_P: u8 = 80;

/// ASCII `X`.
pub const LETTER_X: u8 = 88;

/// ASCII space, between the fields of a line.
pub const SPACE: u8 = 32;

/// ASCII line feed, at the end of every line.
pub const LINE_FEED: u8 = 10;

/// ASCII `0`.
pub const DIGIT_ZERO: u8 = 48;

/// ASCII `a`.
pub const LETTER_A: u8 = 97;

/// ASCII `f`.
pub const LETTER_F: u8 = 102;

/// Whether `byte` is one of `0`..`9`.
pub open spec fn is_decimal_digit(byte: u8) -> bool {
    DIGIT_ZERO <= byte <= DIGIT_ZERO + 9
}

/// Whether `byte` is one of `0`..`9`, `a`..`f`.
pub open spec fn is_hex_digit(byte: u8) -> bool {
    is_decimal_digit(byte) || LETTER_A <= byte <= LETTER_F
}

/// Whether `byte` can occur in a buffer: `P`, `X`, a space, a line feed, a
/// decimal digit or one of `a`..`f`. All of these are ASCII.
pub open spec fn is_wire_byte(byte: u8) -> bool {
    byte == LETTER_P || byte == LETTER_X || byte == SPACE || byte == LINE_FEED || is_hex_digit(
        byte,
    )
}

/// ASCII code of the decimal digit with value `d`.
pub open spec fn digit(d: nat) -> u8
    recommends
        d < 10,
{
    (DIGIT_ZERO + d) as u8
}

/// Decimal representation of `n`, without sign or leading zeros.
pub open spec fn decimal(n: nat) -> Seq<u8>
    decreases n,
{
    if n < 10 {
        seq![digit(n)]
    } else {
        decimal(n / 10).push(digit(n % 10))
    }
}

/// ASCII code of the lowercase hexadecimal digit with value `v`.
pub open spec fn hex_digit(v: nat) -> u8
    recommends
        v < 16,
{
    if v < 10 {
        (DIGIT_ZERO + v) as u8
    } else {
        (LETTER_A + (v - 10)) as u8
    }
}

/// The two hexadecimal digits of one sample, high digit first.
pub open spec fn hex_pair(sample: u8) -> Seq<u8> {
    seq![hex_digit(sample as nat / 16), hex_digit(sample as nat % 16)]
}

/// The eight hexadecimal digits of a colour: red, green, blue, and an alpha
/// that is always `ff`.
pub open spec fn color_hex(color: Rgb) -> Seq<u8> {
    hex_pair(color.r) + hex_pair(color.g) + hex_pair(color.b) + seq![LETTER_F, LETTER_F]
}

/// The line that sets the pixel at `(x, y)` to `color`.
pub open spec fn command_line(x: nat, y: nat, color: Rgb) -> Seq<u8> {
    seq![LETTER_P, LETTER_X, SPACE] + decimal(x) + seq![SPACE] + decimal(y) + seq![SPACE]
        + color_hex(color) + seq![LINE_FEED]
}

/// The line for the pixel `dx` columns into `column`, in row `y`.
pub open spec fn pixel_line(
    image: ImageView,
    column: Column,
    xoff: nat,
    yoff: nat,
    dx: int,
    y: int,
) -> Seq<u8> {
    command_line(
        (column.x_start + dx + xoff) as nat,
        (y + yoff) as nat,
        image.pixel(column.x_start + dx, y),
    )
}

/// The lines of the first `rows` pixels of the strip `dx` columns into
/// `column`, from the top down, joined.
pub open spec fn strip_prefix(
    image: ImageView,
    column: Column,
    xoff: nat,
    yoff: nat,
    dx: int,
    rows: nat,
) -> Seq<u8> {
    Seq::new(rows, |y: int| pixel_line(image, column, xoff, yoff, dx, y)).flatten()
}

/// The lines of one whole strip, joined.
pub open spec fn strip_bytes(image: ImageView, column: Column, xoff: nat, yoff: nat, dx: int) -> Seq<
    u8,
> {
    strip_prefix(image, column, xoff, yoff, dx, column.height as nat)
}

/// The first `strips` strips of a column, from the left, joined.
pub open spec fn column_prefix(
    image: ImageView,
    column: Column,
    xoff: nat,
    yoff: nat,
    strips: nat,
) -> Seq<u8> {
    Seq::new(strips, |dx: int| strip_bytes(image, column, xoff, yoff, dx)).flatten()
}

/// The bytes that encode a column: for each `dx` in `[0, column.width)`, for
/// each `y` in `[0, column.height)`, the line of that pixel.
pub open spec fn column_buffer(image: ImageView, column: Column, xoff: nat, yoff: nat) -> Seq<u8> {
    column_prefix(image, column, xoff, yoff, column.width as nat)
}

/// A strip grows by one line for each further row.
pub proof fn lemma_strip_prefix_step(
    image: ImageView,
    column: Column,
    xoff: nat,
    yoff: nat,
    dx: int,
    rows: nat,
)
    ensures
        strip_prefix(image, column, xoff, yoff, dx, 0) == Seq::<u8>::empty(),
        strip_prefix(image, column, xoff, yoff, dx, rows + 1) == strip_prefix(
            image,
            column,
            xoff,
            yoff,
            dx,
            rows,
        ) + pixel_line(image, column, xoff, yoff, dx, rows as int),
{
    let line = |y: int| pixel_line(image, column, xoff, yoff, dx, y);
    assert(Seq::new(rows + 1, line) =~= Seq::new(rows, line).push(line(rows as int)));
    Seq::new(rows, line).lemma_flatten_push(line(rows as int));
}

/// A column grows by one strip for each further `dx`.
pub proof fn lemma_column_prefix_step(
    image: ImageView,
    column: Column,
    xoff: nat,
    yoff: nat,
    strips: nat,
)
    ensures
        column_prefix(image, column, xoff, yoff, 0) == Seq::<u8>::empty(),
        column_prefix(image, column, xoff, yoff, strips + 1) == column_prefix(
            image,
            column,
            xoff,
            yoff,
            strips,
        ) + strip_bytes(image, column, xoff, yoff, strips as int),
{
    let strip = |dx: int| strip_bytes(image, column, xoff, yoff, dx);
    assert(Seq::new(strips + 1, strip) =~= Seq::new(strips, strip).push(strip(strips as int)));
    Seq::new(strips, strip).lemma_flatten_push(strip(strips as int));
}

/// An encoded column: nothing but wire bytes, fixed once built.
#[derive(Debug)]
pub struct CommandBuffer {
    bytes: Vec<u8>,
}

impl View for CommandBuffer {
    type V = Seq<u8>;

    closed spec fn view(&self) -> Seq<u8> {
        self.bytes@
    }
}

impl CommandBuffer {
    #[verifier::type_invariant]
    spec fn inv(&self) -> bool {
        forall|i: int| 0 <= i < self.bytes@.len() ==> is_wire_byte(#[trigger] self.bytes@[i])
    }

    /// The encoded bytes.
    pub fn as_bytes(&self) -> (bytes: &[u8])
        ensures
            bytes@ == self@,
            forall|i: int| 0 <= i < bytes@.len() ==> is_wire_byte(#[trigger] bytes@[i]),
    {
        proof {
            use_type_invariant(self);
        }
        self.bytes.as_slice()
    }

    /// Number of encoded bytes.
    pub fn len(&self) -> (n: usize)
        ensures
            n == self@.len(),
    {
        self.bytes.len()
    }

    /// Whether the buffer holds no line at all.
    pub fn is_empty(&self) -> (empty: bool)
        ensures
            empty == (self@.len() == 0),
    {
        self.bytes.len() == 0
    }

    /// Gives up the buffer for its bytes.
    pub fn into_bytes(self) -> (bytes: Vec<u8>)
        ensures
            bytes@ == self@,
    {
        self.bytes
    }
}

/// Appends the decimal representation of `n`.
pub fn push_decimal(buf: &mut Vec<u8>, n: u64)
    ensures
        final(buf)@ == old(buf)@ + decimal(n as nat),
{
    let mut low: Vec<u8> = Vec::new();
    let mut rest: u64 = n;
    while rest >= 10
        invariant
            decimal(n as nat) == decimal(rest as nat) + low@.reverse(),
        decreases rest,
    {
        let d: u8 = (rest % 10) as u8;
        proof {
            let tail = low@.reverse();
            assert(low@.push(digit(d as nat)).reverse() =~= seq![digit(d as nat)] + tail);
            assert(decimal(rest as nat) == decimal(rest as nat / 10).push(digit(rest as nat % 10)));
            assert(decimal(rest as nat / 10).push(digit(rest as nat % 10)) + tail =~= decimal(
                rest as nat / 10,
            ) + (seq![digit(d as nat)] + tail));
        }
        low.push(DIGIT_ZERO + d);
        rest = rest / 10;
    }
    buf.push(DIGIT_ZERO + rest as u8);
    let ghost head = buf@;
    let mut left: usize = low.len();
    while left > 0
        invariant
            left <= low@.len(),
            head == old(buf)@ + decimal(rest as nat),
            rest < 10,
            buf@ == head + low@.reverse().subrange(0, low@.len() - left),
        decreases left,
    {
        left = left - 1;
        proof {
            let rev = low@.reverse();
            let done = low@.len() - left - 1;
            assert(rev.subrange(0, done + 1) =~= rev.subrange(0, done).push(low@[left as int]));
        }
        buf.push(low[left]);
    }
    proof {
        let rev = low@.reverse();
        assert(rev.subrange(0, low@.len() as int) =~= rev);
        assert(buf@ =~= old(buf)@ + (decimal(rest as nat) + rev));
    }
}

/// Appends the two lowercase hexadecimal digits of `sample`.
pub fn push_hex_pair(buf: &mut Vec<u8>, sample: u8)
    ensures
        final(buf)@ == old(buf)@ + hex_pair(sample),
{
    let high: u8 = sample / 16;
    let low: u8 = sample % 16;
    buf.push(if high < 10 { DIGIT_ZERO + high } else { LETTER_A + (high - 10) });
    buf.push(if low < 10 { DIGIT_ZERO + low } else { LETTER_A + (low - 10) });
    proof {
        assert(buf@ =~= old(buf)@ + hex_pair(sample));
    }
}

/// Appends the line that sets the pixel at `(x, y)` to `color`.
pub fn push_command(buf: &mut Vec<u8>, x: u64, y: u64, color: Rgb)
    ensures
        final(buf)@ == old(buf)@ + command_line(x as nat, y as nat, color),
{
    buf.push(LETTER_P);
    buf.push(LETTER_X);
    buf.push(SPACE);
    push_decimal(buf, x);
    buf.push(SPACE);
    push_decimal(buf, y);
    buf.push(SPACE);
    push_hex_pair(buf, color.r);
    push_hex_pair(buf, color.g);
    push_hex_pair(buf, color.b);
    buf.push(LETTER_F);
    buf.push(LETTER_F);
    buf.push(LINE_FEED);
    proof {
        assert(buf@ =~= old(buf)@ + command_line(x as nat, y as nat, color));
    }
}

/// Encodes one column of `image`, with every coordinate moved by
/// `(xoff, yoff)`.
pub fn encode_column(image: &Image, column: &Column, xoff: u32, yoff: u32) -> (buffer: CommandBuffer)
    requires
        column.fits(image@.width, image@.height),
    ensures
        buffer@ == column_buffer(image@, *column, xoff as nat, yoff as nat),
{
    let mut bytes: Vec<u8> = Vec::new();
    let mut dx: u32 = 0;
    proof {
        image.lemma_dimensions_bounded();
        lemma_column_prefix_step(image@, *column, xoff as nat, yoff as nat, 0);
    }
    while dx < column.width
        invariant
            dx <= column.width,
            image@.width <= u32::MAX,
            column.fits(image@.width, image@.height),
            bytes@ == column_prefix(image@, *column, xoff as nat, yoff as nat, dx as nat),
        decreases column.width - dx,
    {
        let x: u32 = column.x_start + dx;
        let ghost done = bytes@;
        let mut y: u32 = 0;
        proof {
            lemma_strip_prefix_step(image@, *column, xoff as nat, yoff as nat, dx as int, 0);
        }
        while y < column.height
            invariant
                y <= column.height,
                dx < column.width,
                x == column.x_start + dx,
                column.fits(image@.width, image@.height),
                bytes@ == done + strip_prefix(
                    image@,
                    *column,
                    xoff as nat,
                    yoff as nat,
                    dx as int,
                    y as nat,
                ),
            decreases column.height - y,
        {
            let color = image.get_pixel(x, y);
            proof {
                lemma_strip_prefix_step(
                    image@,
                    *column,
                    xoff as nat,
                    yoff as nat,
                    dx as int,
                    y as nat,
                );
            }
            push_command(&mut bytes, x as u64 + xoff as u64, y as u64 + yoff as u64, color);
            y = y + 1;
        }
        proof {
            lemma_column_prefix_step(image@, *column, xoff as nat, yoff as nat, dx as nat);
        }
        dx = dx + 1;
    }
    proof {
        lemma_one_line_per_pixel(image@, *column, xoff as nat, yoff as nat);
    }
    CommandBuffer { bytes }
}

} // verus!
