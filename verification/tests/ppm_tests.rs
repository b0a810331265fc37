use ray_trace::double::Double;
use ray_trace::ppm::{
    encode, header, pixel_line, push_decimal, push_header, push_pixel, quantize, quantize_pixel,
    scan_position, Pixel, LEVELS_BITS,
};

fn d(x: f64) -> Double {
    Double::from_bits(x.to_bits())
}

fn decimal(n: u32) -> Vec<u8> {
    let mut out = Vec::new();
    push_decimal(&mut out, n);
    out
}

#[test]
fn decimal_digits_are_those_of_the_number() {
    for n in [0, 1, 9, 10, 11, 99, 100, 101, 255, 256, 1200, 65535, 1_000_000, u32::MAX - 1, u32::MAX] {
        assert_eq!(decimal(n), n.to_string().into_bytes());
    }
}

#[test]
fn decimal_is_appended_to_what_is_there() {
    let mut out = b"n=".to_vec();
    push_decimal(&mut out, 800);
    assert_eq!(out, b"n=800".to_vec());
}

#[test]
fn the_header_names_format_sizes_and_top_level() {
    assert_eq!(header(1200, 800), b"P3\n1200 800\n255\n".to_vec());
    assert_eq!(header(1, 1), b"P3\n1 1\n255\n".to_vec());
    assert_eq!(header(0, 0), b"P3\n0 0\n255\n".to_vec());
}

#[test]
fn a_pixel_is_one_line_of_three_levels() {
    assert_eq!(pixel_line(&Pixel { r: 255, g: 0, b: 127 }), b"255 0 127\n".to_vec());
    assert_eq!(pixel_line(&Pixel { r: 0, g: 0, b: 0 }), b"0 0 0\n".to_vec());
    assert_eq!(pixel_line(&Pixel { r: 12, g: 345, b: 6789 }), b"12 345 6789\n".to_vec());
}

#[test]
fn pushing_appends() {
    let mut out = b"# ".to_vec();
    push_header(&mut out, 2, 1);
    push_pixel(&mut out, &Pixel { r: 1, g: 2, b: 3 });
    assert_eq!(out, b"# P3\n2 1\n255\n1 2 3\n".to_vec());
}

#[test]
fn an_image_is_its_header_and_its_pixels_in_order() {
    let pixels = vec![
        Pixel { r: 255, g: 0, b: 0 },
        Pixel { r: 0, g: 255, b: 0 },
        Pixel { r: 0, g: 0, b: 255 },
        Pixel { r: 10, g: 20, b: 30 },
    ];
    assert_eq!(
        encode(2, 2, &pixels),
        b"P3\n2 2\n255\n255 0 0\n0 255 0\n0 0 255\n10 20 30\n".to_vec()
    );
    assert_eq!(encode(0, 0, &vec![]), b"P3\n0 0\n255\n".to_vec());
}

#[test]
fn levels_are_the_channel_times_255_99_cut_off() {
    let cases = [(0.0, 0), (0.25, 63), (0.5, 127), (0.75, 191), (0.999, 255), (1.0, 255)];
    for (channel, level) in cases {
        assert_eq!(quantize(d(255.99 * channel)), level);
        assert_eq!(quantize(d(255.99 * channel)), (255.99 * channel) as u32);
    }
    assert_eq!(quantize(d(255.99 * 2.0)), 511);
    assert_eq!(quantize(d(255.99 * -0.5)), 0);
    assert_eq!(quantize(d(f64::NAN)), 0);
}

#[test]
fn a_pixel_is_quantized_channel_by_channel() {
    let p = quantize_pixel(d(255.99 * 1.0), d(255.99 * 0.5), d(255.99 * 0.0));
    assert_eq!(p, Pixel { r: 255, g: 127, b: 0 });
}

#[test]
fn gamma_corrected_grey_levels() {
    // an average of 0.25 is shown as its square root, 0.5
    let shown = f64::sqrt(0.25);
    assert_eq!(quantize(d(255.99 * shown)), 127);
}

#[test]
fn the_file_starts_with_the_top_row() {
    // 3 columns, 2 rows
    assert_eq!(scan_position(3, 2, 0), Some((0, 1)));
    assert_eq!(scan_position(3, 2, 1), Some((1, 1)));
    assert_eq!(scan_position(3, 2, 2), Some((2, 1)));
    assert_eq!(scan_position(3, 2, 3), Some((0, 0)));
    assert_eq!(scan_position(3, 2, 4), Some((1, 0)));
    assert_eq!(scan_position(3, 2, 5), Some((2, 0)));
    assert_eq!(scan_position(3, 2, 6), None);
}

#[test]
fn the_scan_visits_every_pixel_once() {
    let (nx, ny) = (7u32, 5u32);
    let mut seen = vec![false; (nx * ny) as usize];
    for k in 0..(nx * ny) as u64 {
        let (i, j) = scan_position(nx, ny, k).unwrap();
        assert!(i < nx && j < ny);
        let at = (j * nx + i) as usize;
        assert!(!seen[at]);
        seen[at] = true;
    }
    assert!(seen.iter().all(|s| *s));
}

#[test]
fn an_image_without_pixels_has_no_places() {
    assert_eq!(scan_position(0, 5, 0), None);
    assert_eq!(scan_position(5, 0, 0), None);
    assert_eq!(scan_position(0, 0, 0), None);
}

#[test]
fn the_largest_image_has_its_last_pixel_bottom_right() {
    let n = u32::MAX;
    let last = (n as u64) * (n as u64) - 1;
    assert_eq!(scan_position(n, n, last), Some((n - 1, 0)));
    assert_eq!(scan_position(n, n, last + 1), None);
    assert_eq!(scan_position(1200, 800, 0), Some((0, 799)));
    assert_eq!(scan_position(1200, 800, 1200 * 800 - 1), Some((1199, 0)));
}

#[test]
fn channels_up_to_one_give_levels_up_to_255() {
    assert_eq!(LEVELS_BITS, 256.0_f64.to_bits());
    let mut channel = 0.0_f64;
    while channel <= 1.0 {
        let scaled = 255.99 * channel;
        assert!(d(scaled).lt(Double::from_bits(LEVELS_BITS)));
        assert!(quantize(d(scaled)) <= 255);
        channel += 1.0 / 1024.0;
    }
    assert_eq!(quantize(d(255.999_999)), 255);
    assert_eq!(quantize(d(256.0)), 256);
}
