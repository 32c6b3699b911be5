use pixelflut::column::{plan_column, Column};
use pixelflut::encode::{encode_column, push_command, push_decimal, push_hex_pair};
use pixelflut::raster::{Image, Rgb};

fn text(bytes: &[u8]) -> String {
    String::from_utf8(bytes.to_vec()).unwrap()
}

/// Pixel (x, y) holds red 0x10 * x, green 0x0a + y, blue 0xf0 + x + y; the
/// alpha sample is whatever the caller asks for.
fn sample_image(width: u32, height: u32, alpha: u8) -> Image {
    let mut samples = Vec::new();
    for y in 0..height {
        for x in 0..width {
            samples.push((0x10 * x) as u8);
            samples.push((0x0a + y) as u8);
            samples.push((0xf0 + x + y) as u8);
            samples.push(alpha);
        }
    }
    Image::from_rgba(width, height, samples).unwrap()
}

fn encoded(image: &Image, column: &Column, xoff: u32, yoff: u32) -> String {
    text(encode_column(image, column, xoff, yoff).as_bytes())
}

#[test]
fn decimal_has_no_sign_and_no_leading_zeros() {
    for (n, expected) in [
        (0u64, "0"),
        (7, "7"),
        (9, "9"),
        (10, "10"),
        (99, "99"),
        (100, "100"),
        (1905, "1905"),
        (4294967295, "4294967295"),
        (8589934590, "8589934590"),
        (u64::MAX, "18446744073709551615"),
    ] {
        let mut buf = Vec::new();
        push_decimal(&mut buf, n);
        assert_eq!(text(&buf), expected);
    }
}

#[test]
fn decimal_appends_to_what_is_there() {
    let mut buf = vec![b'a', b'b'];
    push_decimal(&mut buf, 120);
    push_decimal(&mut buf, 0);
    assert_eq!(text(&buf), "ab1200");
}

#[test]
fn hex_pair_is_two_lowercase_digits() {
    for (sample, expected) in
        [(0u8, "00"), (9, "09"), (10, "0a"), (15, "0f"), (16, "10"), (0xab, "ab"), (255, "ff")]
    {
        let mut buf = Vec::new();
        push_hex_pair(&mut buf, sample);
        assert_eq!(text(&buf), expected);
    }
}

#[test]
fn hex_pair_matches_std_formatting_for_every_sample() {
    for sample in 0u8..=255 {
        let mut buf = Vec::new();
        push_hex_pair(&mut buf, sample);
        assert_eq!(text(&buf), format!("{:02x}", sample));
    }
}

#[test]
fn command_line_is_px_x_y_color_newline() {
    let mut buf = Vec::new();
    push_command(&mut buf, 12, 0, Rgb { r: 10, g: 255, b: 0 });
    assert_eq!(text(&buf), "PX 12 0 0aff00ff\n");
    push_command(&mut buf, 0, 1079, Rgb { r: 0xde, g: 0xad, b: 0xbe });
    assert_eq!(text(&buf), "PX 12 0 0aff00ff\nPX 0 1079 deadbeff\n");
}

#[test]
fn four_by_two_image_in_two_columns() {
    let image = sample_image(4, 2, 0xff);
    let left = plan_column(4, 2, 2, 0);
    let right = plan_column(4, 2, 2, 1);
    assert_eq!(
        encoded(&image, &left, 0, 0),
        "PX 0 0 000af0ff\nPX 0 1 000bf1ff\nPX 1 0 100af1ff\nPX 1 1 100bf2ff\n"
    );
    assert_eq!(
        encoded(&image, &right, 0, 0),
        "PX 2 0 200af2ff\nPX 2 1 200bf3ff\nPX 3 0 300af3ff\nPX 3 1 300bf4ff\n"
    );
    assert_eq!(encoded(&image, &left, 0, 0).lines().count(), 4);
    assert_eq!(encoded(&image, &right, 0, 0).lines().count(), 4);
}

#[test]
fn five_wide_image_in_two_columns_never_draws_x_four() {
    let image = sample_image(5, 2, 0xff);
    let mut drawn = Vec::new();
    for index in 0..2 {
        let column = plan_column(5, 2, 2, index);
        for line in encoded(&image, &column, 0, 0).lines() {
            let x: u32 = line.split(' ').nth(1).unwrap().parse().unwrap();
            drawn.push(x);
        }
    }
    assert_eq!(drawn, vec![0, 0, 1, 1, 2, 2, 3, 3]);
    assert!(!drawn.contains(&4));
}

#[test]
fn traversal_is_column_major() {
    let image = sample_image(3, 3, 0);
    let column = Column { index: 0, x_start: 1, width: 2, height: 3 };
    let out = encoded(&image, &column, 0, 0);
    let coords: Vec<(u32, u32)> = out
        .lines()
        .map(|line| {
            let mut parts = line.split(' ');
            assert_eq!(parts.next(), Some("PX"));
            let x = parts.next().unwrap().parse().unwrap();
            let y = parts.next().unwrap().parse().unwrap();
            (x, y)
        })
        .collect();
    assert_eq!(coords, vec![(1, 0), (1, 1), (1, 2), (2, 0), (2, 1), (2, 2)]);
}

#[test]
fn buffer_has_width_times_height_lines() {
    let image = sample_image(7, 5, 1);
    for threads in 1u32..=8 {
        for index in 0..threads {
            let column = plan_column(7, 5, threads, index);
            let buffer = encode_column(&image, &column, 3, 4);
            let newlines = buffer.as_bytes().iter().filter(|b| **b == b'\n').count();
            assert_eq!(newlines as u32, column.width * 5);
            assert_eq!(buffer.as_bytes().last().copied(), if column.width > 0 {
                Some(b'\n')
            } else {
                None
            });
            assert_eq!(buffer.len(), buffer.as_bytes().len());
        }
    }
}

#[test]
fn offsets_move_every_coordinate() {
    let image = sample_image(2, 2, 9);
    let column = plan_column(2, 2, 1, 0);
    assert_eq!(
        encoded(&image, &column, 100, 2000),
        "PX 100 2000 000af0ff\nPX 100 2001 000bf1ff\nPX 101 2000 100af1ff\nPX 101 2001 100bf2ff\n"
    );
}

#[test]
fn offsets_at_the_top_of_the_range_do_not_wrap() {
    let image = sample_image(2, 2, 9);
    let column = Column { index: 0, x_start: 1, width: 1, height: 2 };
    assert_eq!(
        encoded(&image, &column, u32::MAX, u32::MAX),
        "PX 4294967296 4294967295 100af1ff\nPX 4294967296 4294967296 100bf2ff\n"
    );
}

#[test]
fn alpha_is_always_ff() {
    let opaque = sample_image(4, 3, 0xff);
    let clear = sample_image(4, 3, 0x00);
    let half = sample_image(4, 3, 0x7f);
    for index in 0..2 {
        let column = plan_column(4, 3, 2, index);
        let expected = encoded(&opaque, &column, 5, 6);
        assert_eq!(encoded(&clear, &column, 5, 6), expected);
        assert_eq!(encoded(&half, &column, 5, 6), expected);
        for line in expected.lines() {
            let hex = line.split(' ').nth(3).unwrap();
            assert_eq!(hex.len(), 8);
            assert!(hex.ends_with("ff"));
            assert!(hex.bytes().all(|b| b.is_ascii_digit() || (b'a'..=b'f').contains(&b)));
        }
    }
}

#[test]
fn hex_is_red_green_blue_of_the_source_pixel() {
    let image = sample_image(3, 2, 0x33);
    let column = plan_column(3, 2, 1, 0);
    for line in encoded(&image, &column, 0, 0).lines() {
        let mut parts = line.split(' ').skip(1);
        let x: u32 = parts.next().unwrap().parse().unwrap();
        let y: u32 = parts.next().unwrap().parse().unwrap();
        let color = image.get_pixel(x, y);
        assert_eq!(
            parts.next().unwrap(),
            format!("{:02x}{:02x}{:02x}ff", color.r, color.g, color.b)
        );
    }
}

#[test]
fn encoding_twice_gives_the_same_bytes() {
    let image = sample_image(6, 4, 0x42);
    for index in 0..3 {
        let column = plan_column(6, 4, 3, index);
        let first = encode_column(&image, &column, 1, 2);
        let second = encode_column(&image, &column, 1, 2);
        assert_eq!(first.as_bytes(), second.as_bytes());
        assert_eq!(first.into_bytes(), second.as_bytes().to_vec());
    }
}

#[test]
fn buffer_is_ascii() {
    let image = sample_image(5, 5, 0xee);
    let column = plan_column(5, 5, 1, 0);
    let buffer = encode_column(&image, &column, 4000000000, 4000000000);
    assert!(buffer.as_bytes().is_ascii());
    assert!(buffer
        .as_bytes()
        .iter()
        .all(|b| b"PX \n0123456789abcdef".contains(b)));
}

#[test]
fn empty_column_encodes_to_nothing() {
    let image = sample_image(3, 2, 0);
    let narrow = Column { index: 0, x_start: 3, width: 0, height: 2 };
    let flat = Column { index: 0, x_start: 0, width: 3, height: 0 };
    assert_eq!(encode_column(&image, &narrow, 0, 0).len(), 0);
    assert_eq!(encode_column(&image, &flat, 0, 0).len(), 0);
    let none = Image::from_rgba(0, 0, Vec::new()).unwrap();
    let column = plan_column(0, 0, 16, 15);
    assert_eq!(encode_column(&none, &column, 0, 0).len(), 0);
}

#[test]
fn column_shorter_than_the_image_stops_early() {
    let image = sample_image(2, 3, 0);
    let column = Column { index: 0, x_start: 0, width: 2, height: 2 };
    assert_eq!(
        encoded(&image, &column, 0, 0),
        "PX 0 0 000af0ff\nPX 0 1 000bf1ff\nPX 1 0 100af1ff\nPX 1 1 100bf2ff\n"
    );
}

#[test]
fn decimal_matches_std_formatting() {
    let mut values: Vec<u64> = (0..=1100).collect();
    for shift in 0..64 {
        values.push(1u64 << shift);
        values.push((1u64 << shift) - 1);
        values.push((1u64 << shift) + 9);
    }
    let mut power = 1u64;
    for _ in 0..19 {
        power *= 10;
        values.push(power - 1);
        values.push(power);
        values.push(power + 1);
    }
    for n in values {
        let mut buf = Vec::new();
        push_decimal(&mut buf, n);
        assert_eq!(text(&buf), format!("{}", n));
    }
}

#[test]
fn command_line_matches_std_formatting() {
    for (x, y, r, g, b) in [(0u32, 0u32, 0u8, 0u8, 0u8), (1919, 1079, 255, 128, 1), (7, 70000, 9, 10, 171)] {
        let mut buf = Vec::new();
        push_command(&mut buf, x as u64, y as u64, Rgb { r, g, b });
        let pixel = format!("{:02x}{:02x}{:02x}{:02x}", r, g, b, 0xff);
        assert_eq!(text(&buf), format!("PX {} {} {}\n", x, y, pixel));
    }
}
