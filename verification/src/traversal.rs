//! What holds of every encoded column: the order of its lines, the pixels
//! they draw, and the bytes they are made of.

use vstd::prelude::*;
use vstd::seq_lib::lemma_flatten_concat;
use crate::column::{covered_width, lemma_column_in_bounds, planned_column, Column};
use crate::encode::{
    color_hex, column_buffer, column_prefix, command_line, decimal, hex_pair, is_decimal_digit,
    is_hex_digit, is_wire_byte, lemma_column_prefix_step, pixel_line, strip_bytes, DIGIT_ZERO,
    LETTER_A, LETTER_F, LETTER_P, LETTER_X, LINE_FEED, SPACE,
};
use crate::raster::{ImageView, Rgb};

verus! {

/// The x coordinate, within the image, of the pixel that line `k` of a
/// column draws.
pub open spec fn line_x(column: Column, k: int) -> int {
    column.x_start + k / (column.height as int)
}

/// The y coordinate, within the image, of the pixel that line `k` of a
/// column draws.
pub open spec fn line_y(column: Column, k: int) -> int {
    k % (column.height as int)
}

/// Position, among the lines of a column, of the line for strip `dx`, row
/// `y`: strips are counted in the outer loop, rows in the inner one.
pub open spec fn line_index(column: Column, dx: int, y: int) -> int {
    dx * column.height + y
}

/// The lines of a column in the order they are sent.
pub open spec fn column_lines(image: ImageView, column: Column, xoff: nat, yoff: nat) -> Seq<
    Seq<u8>,
> {
    Seq::new(
        column.width as nat * column.height as nat,
        |k: int|
            command_line(
                (line_x(column, k) + xoff) as nat,
                (line_y(column, k) + yoff) as nat,
                image.pixel(line_x(column, k), line_y(column, k)),
            ),
    )
}

/// Line `dx * height + y` is the one that comes in strip `dx`, row `y`.
pub proof fn lemma_line_position(column: Column, dx: int, y: int)
    requires
        0 <= dx < column.width,
        0 <= y < column.height,
    ensures
        0 <= dx * column.height + y < column.width * column.height,
        line_x(column, dx * column.height + y) == column.x_start + dx,
        line_y(column, dx * column.height + y) == y,
{
    let h = column.height as int;
    let w = column.width as int;
    assert(0 <= dx * h && dx * h + h <= w * h) by (nonlinear_arith)
        requires
            0 <= dx < w,
            0 <= h,
    ;
    vstd::arithmetic::div_mod::lemma_fundamental_div_mod_converse(dx * h + y, h, dx, y);
}

/// Line `k` draws a pixel of its column: strip `k / height`, row
/// `k % height`.
pub proof fn lemma_line_pixel(column: Column, k: int)
    requires
        0 <= k < column.width * column.height,
    ensures
        column.contains_x(line_x(column, k)),
        0 <= line_y(column, k) < column.height,
        k == (line_x(column, k) - column.x_start) * column.height + line_y(column, k),
{
    let h = column.height as int;
    let w = column.width as int;
    assert(h > 0) by (nonlinear_arith)
        requires
            0 <= k < w * h,
            0 <= w,
    ;
    vstd::arithmetic::div_mod::lemma_fundamental_div_mod(k, h);
    vstd::arithmetic::div_mod::lemma_mod_bound(k, h);
    let dx = k / h;
    assert(0 <= dx < w && h * dx == dx * h) by (nonlinear_arith)
        requires
            0 <= k < w * h,
            k == h * dx + k % h,
            0 <= k % h < h,
    ;
}

/// The first `strips` strips hold the first `strips * height` lines.
proof fn lemma_prefix_is_lines(image: ImageView, column: Column, xoff: nat, yoff: nat, strips: nat)
    requires
        strips <= column.width,
    ensures
        strips * column.height <= column.width * column.height,
        column_prefix(image, column, xoff, yoff, strips) == column_lines(
            image,
            column,
            xoff,
            yoff,
        ).subrange(0, strips * column.height as int).flatten(),
    decreases strips,
{
    let h = column.height as int;
    let lines = column_lines(image, column, xoff, yoff);
    lemma_column_prefix_step(image, column, xoff, yoff, 0);
    assert(0 <= strips * h <= column.width * h) by (nonlinear_arith)
        requires
            0 <= strips <= column.width,
            0 <= h,
    ;
    if strips == 0 {
        assert(strips * h == 0) by (nonlinear_arith)
            requires
                strips == 0,
        ;
        assert(lines.subrange(0, 0) =~= Seq::<Seq<u8>>::empty());
    } else {
        let n = (strips - 1) as nat;
        lemma_prefix_is_lines(image, column, xoff, yoff, n);
        lemma_column_prefix_step(image, column, xoff, yoff, n);
        assert(strips * h == n * h + h) by (nonlinear_arith)
            requires
                strips == n + 1,
        ;
        let strip = Seq::new(
            column.height as nat,
            |y: int| pixel_line(image, column, xoff, yoff, n as int, y),
        );
        assert(strip_bytes(image, column, xoff, yoff, n as int) == strip.flatten());
        let front = lines.subrange(0, n * h);
        let back = lines.subrange(n * h, strips * h);
        assert(back =~= strip) by {
            assert forall|y: int| 0 <= y < h implies back[y] == strip[y] by {
                lemma_line_position(column, n as int, y);
                assert(back[y] == lines[n * h + y]);
            }
        }
        assert(lines.subrange(0, strips * h) =~= front + back);
        lemma_flatten_concat(front, back);
        assert(column_prefix(image, column, xoff, yoff, strips) == front.flatten()
            + strip.flatten());
    }
}

/// The buffer of a column is its `width * height` lines, one after another,
/// with the strip `dx` counted in the outer loop and the row `y` in the
/// inner one: line `dx * height + y` sets the pixel at
/// `(x_start + dx, y)` of the image.
pub proof fn lemma_buffer_is_lines(image: ImageView, column: Column, xoff: nat, yoff: nat)
    ensures
        column_buffer(image, column, xoff, yoff) == column_lines(
            image,
            column,
            xoff,
            yoff,
        ).flatten(),
        column_lines(image, column, xoff, yoff).len() == column.width * column.height,
        forall|dx: int, y: int|
            0 <= dx < column.width && 0 <= y < column.height ==> {
                &&& 0 <= #[trigger] line_index(column, dx, y) < column.width * column.height
                &&& column_lines(image, column, xoff, yoff)[line_index(column, dx, y)]
                    == pixel_line(image, column, xoff, yoff, dx, y)
            },
{
    let lines = column_lines(image, column, xoff, yoff);
    lemma_prefix_is_lines(image, column, xoff, yoff, column.width as nat);
    assert(lines.subrange(0, column.width * column.height) =~= lines);
    assert forall|dx: int, y: int| 0 <= dx < column.width && 0 <= y < column.height implies {
        &&& 0 <= #[trigger] line_index(column, dx, y) < column.width * column.height
        &&& lines[line_index(column, dx, y)] == pixel_line(
            image,
            column,
            xoff,
            yoff,
            dx,
            y,
        )
    } by {
        lemma_line_position(column, dx, y);
    }
}

/// No worker draws right of the covered width: every line of the buffer of
/// every planned column sets a pixel whose x lies below
/// `(width / thread_count) * thread_count`, and inside the image.
pub proof fn lemma_remainder_is_never_drawn(
    image: ImageView,
    thread_count: u32,
    thread_index: u32,
    xoff: nat,
    yoff: nat,
    k: int,
)
    requires
        image.width <= u32::MAX,
        image.height <= u32::MAX,
        thread_count >= 1,
        thread_index < thread_count,
        0 <= k < column_lines(
            image,
            planned_column(image.width, image.height, thread_count as nat, thread_index as nat),
            xoff,
            yoff,
        ).len(),
    ensures
        ({
            let column = planned_column(
                image.width,
                image.height,
                thread_count as nat,
                thread_index as nat,
            );
            let x = line_x(column, k);
            let y = line_y(column, k);
            &&& column_lines(image, column, xoff, yoff)[k] == command_line(
                (x + xoff) as nat,
                (y + yoff) as nat,
                image.pixel(x, y),
            )
            &&& 0 <= x < covered_width(image.width, thread_count as nat) <= image.width
            &&& 0 <= y < image.height
        }),
{
    let column = planned_column(
        image.width,
        image.height,
        thread_count as nat,
        thread_index as nat,
    );
    lemma_column_in_bounds(image.width, thread_count as nat, thread_index as nat);
    lemma_line_pixel(column, k);
}

/// The colour digits are the two lowercase hexadecimal digits of red, of
/// green and of blue, in that order, and then `ff`.
pub proof fn lemma_color_hex_digits(color: Rgb)
    ensures
        color_hex(color).len() == 8,
        color_hex(color).subrange(0, 2) == hex_pair(color.r),
        color_hex(color).subrange(2, 4) == hex_pair(color.g),
        color_hex(color).subrange(4, 6) == hex_pair(color.b),
        color_hex(color)[6] == LETTER_F,
        color_hex(color)[7] == LETTER_F,
        forall|i: int|
            0 <= i < 8 ==> is_hex_digit(#[trigger] color_hex(color)[i]),
        hex_value(color_hex(color)[0]) * 16 + hex_value(color_hex(color)[1]) == color.r,
        hex_value(color_hex(color)[2]) * 16 + hex_value(color_hex(color)[3]) == color.g,
        hex_value(color_hex(color)[4]) * 16 + hex_value(color_hex(color)[5]) == color.b,
{
    assert(color_hex(color).subrange(0, 2) =~= hex_pair(color.r));
    assert(color_hex(color).subrange(2, 4) =~= hex_pair(color.g));
    assert(color_hex(color).subrange(4, 6) =~= hex_pair(color.b));
}

/// The value of a lowercase hexadecimal digit.
pub open spec fn hex_value(byte: u8) -> int
    recommends
        is_hex_digit(byte),
{
    if is_decimal_digit(byte) {
        byte - DIGIT_ZERO
    } else {
        byte - LETTER_A + 10
    }
}

/// Two images of the same dimensions that agree on red, green and blue
/// wherever a column reaches encode to the same bytes, whatever their alpha
/// samples hold.
pub proof fn lemma_alpha_is_ignored(
    first: ImageView,
    second: ImageView,
    column: Column,
    xoff: nat,
    yoff: nat,
)
    requires
        forall|x: int, y: int|
            column.contains_x(x) && 0 <= y < column.height ==> #[trigger] first.pixel(x, y)
                == second.pixel(x, y),
    ensures
        column_buffer(first, column, xoff, yoff) == column_buffer(second, column, xoff, yoff),
{
    lemma_buffer_is_lines(first, column, xoff, yoff);
    lemma_buffer_is_lines(second, column, xoff, yoff);
    let a = column_lines(first, column, xoff, yoff);
    let b = column_lines(second, column, xoff, yoff);
    assert(a =~= b) by {
        assert forall|k: int| 0 <= k < a.len() implies a[k] == b[k] by {
            lemma_line_pixel(column, k);
        }
    }
}

/// Encoding is a function of the samples, the column and the offsets alone:
/// two buffers built from the same of these are the same, byte for byte.
pub proof fn lemma_encoding_is_deterministic(
    image: ImageView,
    column: Column,
    xoff: nat,
    yoff: nat,
    first: Seq<u8>,
    second: Seq<u8>,
)
    requires
        first == column_buffer(image, column, xoff, yoff),
        second == column_buffer(image, column, xoff, yoff),
    ensures
        first == second,
{
}

/// Overwriting the alpha sample of any pixel leaves every encoded column as
/// it was: the encoder never reads that sample.
pub proof fn lemma_alpha_sample_is_never_read(
    image: ImageView,
    column: Column,
    xoff: nat,
    yoff: nat,
    x: int,
    y: int,
    alpha: u8,
)
    requires
        image.wf(),
        image.in_bounds(x, y),
        column.fits(image.width, image.height),
    ensures
        column_buffer(
            ImageView { samples: image.samples.update(image.offset(x, y) + 3, alpha), ..image },
            column,
            xoff,
            yoff,
        ) == column_buffer(image, column, xoff, yoff),
{
    let changed = ImageView {
        samples: image.samples.update(image.offset(x, y) + 3, alpha),
        ..image
    };
    assert forall|px: int, py: int|
        column.contains_x(px) && 0 <= py < column.height implies #[trigger] changed.pixel(px, py)
        == image.pixel(px, py) by {
        crate::raster::lemma_offset_in_range(image, px, py);
        crate::raster::lemma_offset_in_range(image, x, y);
    }
    lemma_alpha_is_ignored(changed, image, column, xoff, yoff);
}

/// The number that a run of decimal digits stands for.
pub open spec fn decimal_value(digits: Seq<u8>) -> nat
    decreases digits.len(),
{
    if digits.len() == 0 {
        0
    } else {
        (decimal_value(digits.drop_last()) * 10 + (digits.last() - DIGIT_ZERO)) as nat
    }
}

/// `decimal(n)` is the usual way to write `n`: one digit or more, no zero in
/// front unless `n` is 0, and the digits stand for `n`.
pub proof fn lemma_decimal_is_canonical(n: nat)
    ensures
        decimal(n).len() >= 1,
        forall|i: int| 0 <= i < decimal(n).len() ==> is_decimal_digit(#[trigger] decimal(n)[i]),
        decimal(n)[0] == DIGIT_ZERO <==> n == 0,
        decimal_value(decimal(n)) == n,
    decreases n,
{
    if n < 10 {
        assert(decimal(n).drop_last() =~= Seq::<u8>::empty());
        assert(decimal_value(decimal(n).drop_last()) == 0);
    } else {
        lemma_decimal_is_canonical(n / 10);
        let head = decimal(n / 10);
        assert(decimal(n).drop_last() =~= head);
        assert(decimal(n)[0] == head[0]);
    }
}

/// Number of times `byte` occurs in `bytes`.
pub open spec fn count_byte(bytes: Seq<u8>, byte: u8) -> nat
    decreases bytes.len(),
{
    if bytes.len() == 0 {
        0
    } else {
        count_byte(bytes.drop_last(), byte) + if bytes.last() == byte {
            1nat
        } else {
            0nat
        }
    }
}

proof fn lemma_count_concat(a: Seq<u8>, b: Seq<u8>, byte: u8)
    ensures
        count_byte(a + b, byte) == count_byte(a, byte) + count_byte(b, byte),
    decreases b.len(),
{
    if b.len() == 0 {
        assert(a + b =~= a);
    } else {
        assert((a + b).drop_last() =~= a + b.drop_last());
        lemma_count_concat(a, b.drop_last(), byte);
    }
}

proof fn lemma_count_absent(bytes: Seq<u8>, byte: u8)
    requires
        forall|i: int| 0 <= i < bytes.len() ==> bytes[i] != byte,
    ensures
        count_byte(bytes, byte) == 0,
    decreases bytes.len(),
{
    if bytes.len() > 0 {
        lemma_count_absent(bytes.drop_last(), byte);
    }
}

proof fn lemma_count_flatten(lines: Seq<Seq<u8>>, byte: u8)
    requires
        forall|k: int| 0 <= k < lines.len() ==> count_byte(#[trigger] lines[k], byte) == 1,
    ensures
        count_byte(lines.flatten(), byte) == lines.len(),
    decreases lines.len(),
{
    if lines.len() > 0 {
        let front = lines.drop_last();
        lemma_count_flatten(front, byte);
        assert(lines =~= front.push(lines.last()));
        front.lemma_flatten_push(lines.last());
        lemma_count_concat(front.flatten(), lines.last(), byte);
    }
}

proof fn lemma_flatten_bytes(lines: Seq<Seq<u8>>)
    requires
        forall|k: int, i: int|
            0 <= k < lines.len() && 0 <= i < lines[k].len() ==> is_wire_byte(
                #[trigger] lines[k][i],
            ),
    ensures
        forall|i: int| 0 <= i < lines.flatten().len() ==> is_wire_byte(#[trigger] lines.flatten()[i]),
    decreases lines.len(),
{
    if lines.len() > 0 {
        let front = lines.drop_last();
        assert forall|k: int, i: int| 0 <= k < front.len() && 0 <= i < front[k].len() implies is_wire_byte(
            #[trigger] front[k][i],
        ) by {
            assert(front[k][i] == lines[k][i]);
        }
        lemma_flatten_bytes(front);
        assert(lines =~= front.push(lines.last()));
        front.lemma_flatten_push(lines.last());
        assert forall|i: int| 0 <= i < lines.flatten().len() implies is_wire_byte(
            #[trigger] lines.flatten()[i],
        ) by {
            if i >= front.flatten().len() {
                assert(lines.flatten()[i] == lines[lines.len() - 1][i - front.flatten().len()]);
            }
        }
    }
}

/// A line is made of wire bytes; its last nine bytes are the eight colour
/// digits and a line feed, and it holds no other line feed.
pub proof fn lemma_line_shape(x: nat, y: nat, color: Rgb)
    ensures
        forall|i: int|
            0 <= i < command_line(x, y, color).len() ==> is_wire_byte(
                #[trigger] command_line(x, y, color)[i],
            ),
        command_line(x, y, color).len() == decimal(x).len() + decimal(y).len() + 14,
        command_line(x, y, color).subrange(
            command_line(x, y, color).len() - 9,
            command_line(x, y, color).len() - 1,
        ) == color_hex(color),
        command_line(x, y, color).last() == LINE_FEED,
        count_byte(command_line(x, y, color), LINE_FEED) == 1,
{
    lemma_decimal_is_canonical(x);
    lemma_decimal_is_canonical(y);
    lemma_color_hex_digits(color);
    let head = seq![LETTER_P, LETTER_X, SPACE];
    let gap = seq![SPACE];
    let end = seq![LINE_FEED];
    let dx = decimal(x);
    let dy = decimal(y);
    let hex = color_hex(color);
    let line = command_line(x, y, color);
    assert(line == head + dx + gap + dy + gap + hex + end);
    assert forall|i: int| 0 <= i < line.len() implies is_wire_byte(#[trigger] line[i]) by {
        if i < 3 {
            assert(line[i] == head[i]);
        } else if i < 3 + dx.len() {
            assert(line[i] == dx[i - 3]);
        } else if i < 4 + dx.len() {
            assert(line[i] == SPACE);
        } else if i < 4 + dx.len() + dy.len() {
            assert(line[i] == dy[i - 4 - dx.len()]);
        } else if i < 5 + dx.len() + dy.len() {
            assert(line[i] == SPACE);
        } else if i < 13 + dx.len() + dy.len() {
            assert(line[i] == hex[i - 5 - dx.len() - dy.len()]);
        } else {
            assert(line[i] == LINE_FEED);
        }
    }
    assert(line.subrange(line.len() - 9, line.len() - 1) =~= hex);
    lemma_count_absent(head, LINE_FEED);
    lemma_count_absent(dx, LINE_FEED);
    lemma_count_absent(gap, LINE_FEED);
    lemma_count_absent(dy, LINE_FEED);
    lemma_count_absent(hex, LINE_FEED);
    assert(count_byte(end, LINE_FEED) == 1) by {
        assert(end.drop_last() =~= Seq::<u8>::empty());
        assert(count_byte(Seq::<u8>::empty(), LINE_FEED) == 0);
        assert(end.last() == LINE_FEED);
    }
    lemma_count_concat(head, dx, LINE_FEED);
    lemma_count_concat(head + dx, gap, LINE_FEED);
    lemma_count_concat(head + dx + gap, dy, LINE_FEED);
    lemma_count_concat(head + dx + gap + dy, gap, LINE_FEED);
    lemma_count_concat(head + dx + gap + dy + gap, hex, LINE_FEED);
    lemma_count_concat(head + dx + gap + dy + gap + hex, end, LINE_FEED);
}

/// A buffer holds as many line feeds as its column has pixels, each closing
/// one line, and nothing but wire bytes.
pub proof fn lemma_one_line_per_pixel(image: ImageView, column: Column, xoff: nat, yoff: nat)
    ensures
        count_byte(column_buffer(image, column, xoff, yoff), LINE_FEED) == column.width * column.height,
        forall|i: int|
            0 <= i < column_buffer(image, column, xoff, yoff).len() ==> is_wire_byte(
                #[trigger] column_buffer(image, column, xoff, yoff)[i],
            ),
{
    let lines = column_lines(image, column, xoff, yoff);
    lemma_buffer_is_lines(image, column, xoff, yoff);
    assert forall|k: int| 0 <= k < lines.len() implies count_byte(#[trigger] lines[k], LINE_FEED)
        == 1 by {
        lemma_line_shape(
            (line_x(column, k) + xoff) as nat,
            (line_y(column, k) + yoff) as nat,
            image.pixel(line_x(column, k), line_y(column, k)),
        );
    }
    assert forall|k: int, i: int| 0 <= k < lines.len() && 0 <= i < lines[k].len() implies is_wire_byte(
        #[trigger] lines[k][i],
    ) by {
        lemma_line_shape(
            (line_x(column, k) + xoff) as nat,
            (line_y(column, k) + yoff) as nat,
            image.pixel(line_x(column, k), line_y(column, k)),
        );
    }
    lemma_count_flatten(lines, LINE_FEED);
    lemma_flatten_bytes(lines);
}

} // verus!
