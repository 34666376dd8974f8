use pathtracer::color::{channel_value, LIMIT_BITS};
use pathtracer::config::ConfigError;
use pathtracer::decimal::push_decimal;
use pathtracer::render::{pixel_seed, render, write_color, write_header, RenderConfig};
use pathtracer::scalar::Scalar;
use pathtracer::vec3::Vec3;

fn s(x: f64) -> Scalar {
    Scalar::from_bits(x.to_bits())
}

fn v(x: f64, y: f64, z: f64) -> Vec3 {
    Vec3::new(s(x), s(y), s(z))
}

/// The channel value as hardware arithmetic computes it.
fn by_hardware(x: f64) -> u32 {
    (x.clamp(0.0, 0.999) * 256.0) as u32
}

fn decimal(n: u32) -> String {
    let mut out = Vec::new();
    push_decimal(&mut out, n);
    String::from_utf8(out).unwrap()
}

fn config(w: u32, h: u32) -> RenderConfig {
    match RenderConfig::new(w, h, 1, 1) {
        Ok(c) => c,
        Err(_) => panic!("one sample per pixel is valid"),
    }
}

#[test]
fn limit_is_the_largest_channel_written() {
    assert_eq!(f64::from_bits(LIMIT_BITS), 0.999);
}

#[test]
fn channel_value_scales_to_eight_bits() {
    assert_eq!(channel_value(s(0.0)), 0);
    assert_eq!(channel_value(s(0.25)), 64);
    assert_eq!(channel_value(s(0.5)), 128);
    assert_eq!(channel_value(s(0.75)), 192);
    assert_eq!(channel_value(s(0.003)), 0);
    assert_eq!(channel_value(s(0.00390625)), 1);
    assert_eq!(channel_value(s(0.0039062499999999996)), 0);
    assert_eq!(channel_value(s(0.99609375)), 255);
    assert_eq!(channel_value(s(0.9960937499999999)), 254);
}

#[test]
fn channel_value_clamps_at_both_ends() {
    assert_eq!(channel_value(s(0.999)), 255);
    assert_eq!(channel_value(s(1.0)), 255);
    assert_eq!(channel_value(s(17.5)), 255);
    assert_eq!(channel_value(s(f64::INFINITY)), 255);
    assert_eq!(channel_value(s(-0.0)), 0);
    assert_eq!(channel_value(s(-0.5)), 0);
    assert_eq!(channel_value(s(f64::NEG_INFINITY)), 0);
}

#[test]
fn channel_value_of_nan_is_zero() {
    assert_eq!(channel_value(s(f64::NAN)), 0);
    assert_eq!(channel_value(s(-f64::NAN)), 0);
    assert_eq!(channel_value(Scalar::from_bits(0x7ff0_0000_0000_0001)), 0);
}

#[test]
fn channel_value_of_tiny_values_is_zero() {
    assert_eq!(channel_value(s(f64::MIN_POSITIVE)), 0);
    assert_eq!(channel_value(Scalar::from_bits(1)), 0);
    assert_eq!(channel_value(s(1e-300)), 0);
}

#[test]
fn channel_value_agrees_with_the_hardware() {
    for k in 0..=4096u32 {
        let x = k as f64 / 4096.0;
        assert_eq!(channel_value(s(x)) as u32, by_hardware(x), "{}", x);
        let y = (k as f64 / 4096.0).sqrt();
        assert_eq!(channel_value(s(y)) as u32, by_hardware(y), "{}", y);
    }
    let mut state: u64 = 0x9e37_79b9_7f4a_7c15;
    for _ in 0..20000 {
        state ^= state << 13;
        state ^= state >> 7;
        state ^= state << 17;
        let x = f64::from_bits(state);
        assert_eq!(channel_value(s(x)) as u32, by_hardware(x), "{:?}", x);
        let unit = (state >> 11) as f64 / (1u64 << 53) as f64;
        assert_eq!(channel_value(s(unit)) as u32, by_hardware(unit), "{:?}", unit);
    }
}

#[test]
fn channel_value_steps_exactly_at_each_multiple() {
    for k in 1..=255u32 {
        let edge = k as f64 / 256.0;
        let below = f64::from_bits(edge.to_bits() - 1);
        assert_eq!(channel_value(s(edge)) as u32, k);
        assert_eq!(channel_value(s(below)) as u32, k - 1);
    }
}

#[test]
fn decimal_notation_of_small_and_large_numbers() {
    assert_eq!(decimal(0), "0");
    assert_eq!(decimal(7), "7");
    assert_eq!(decimal(9), "9");
    assert_eq!(decimal(10), "10");
    assert_eq!(decimal(99), "99");
    assert_eq!(decimal(100), "100");
    assert_eq!(decimal(255), "255");
    assert_eq!(decimal(400), "400");
    assert_eq!(decimal(1000000), "1000000");
    assert_eq!(decimal(4294967295), "4294967295");
}

#[test]
fn decimal_notation_agrees_with_the_standard_one() {
    let mut n: u32 = 1;
    for _ in 0..2000 {
        assert_eq!(decimal(n), n.to_string());
        n = n.wrapping_mul(1664525).wrapping_add(1013904223);
    }
}

#[test]
fn push_decimal_appends() {
    let mut out = vec![b'x', b'='];
    push_decimal(&mut out, 42);
    assert_eq!(out, b"x=42".to_vec());
}

#[test]
fn header_names_format_size_and_depth() {
    let mut out = Vec::new();
    write_header(400, 225, &mut out);
    assert_eq!(out, b"P3\n400 225\n255\n".to_vec());
}

#[test]
fn header_of_an_empty_image() {
    let mut out = Vec::new();
    write_header(0, 0, &mut out);
    assert_eq!(out, b"P3\n0 0\n255\n".to_vec());
}

#[test]
fn write_color_writes_one_line() {
    let mut out = Vec::new();
    write_color(v(0.0, 0.5, 1.0), &mut out);
    assert_eq!(out, b"0 128 255\n".to_vec());
}

#[test]
fn write_color_appends_to_what_is_there() {
    let mut out = b"P3\n".to_vec();
    write_color(v(0.25, 0.999, -3.0), &mut out);
    write_color(v(f64::NAN, 0.0625, 0.75), &mut out);
    assert_eq!(out, b"P3\n64 255 0\n0 16 192\n".to_vec());
}

#[test]
fn render_writes_header_and_one_line_per_pixel() {
    let colors = vec![
        v(0.0, 0.0, 0.0),
        v(1.0, 1.0, 1.0),
        v(0.5, 0.25, 0.125),
        v(0.1, 0.2, 0.3),
        v(0.9, 0.8, 0.7),
        v(2.0, -1.0, 0.999),
    ];
    let text = match render(3, 2, &colors) {
        Some(text) => text,
        None => panic!("six colours fill three by two pixels"),
    };
    assert_eq!(
        String::from_utf8(text).unwrap(),
        "P3\n3 2\n255\n0 0 0\n255 255 255\n128 64 32\n25 51 76\n230 204 179\n255 0 255\n"
    );
}

#[test]
fn render_refuses_a_wrong_number_of_colours() {
    let colors = vec![v(0.0, 0.0, 0.0); 5];
    assert!(render(3, 2, &colors).is_none());
    assert!(render(2, 2, &colors).is_none());
    assert!(render(0, 9, &colors).is_none());
    assert!(render(5, 1, &colors).is_some());
}

#[test]
fn render_of_no_pixels_is_the_header() {
    assert_eq!(render(0, 7, &Vec::new()), Some(b"P3\n0 7\n255\n".to_vec()));
}

#[test]
fn render_twice_gives_the_same_bytes() {
    let colors: Vec<Vec3> = (0..64).map(|k| v(k as f64 / 64.0, 0.5, 1.0 - k as f64 / 64.0)).collect();
    assert_eq!(render(8, 8, &colors), render(8, 8, &colors));
}

#[test]
fn config_needs_a_sample() {
    assert_eq!(RenderConfig::new(400, 225, 0, 50), Err(ConfigError::SamplesPerPixel));
}

#[test]
fn config_keeps_its_settings() {
    let c = match RenderConfig::new(400, 225, 100, 50) {
        Ok(c) => c,
        Err(_) => panic!("a hundred samples are valid"),
    };
    assert_eq!(c.image_width, 400);
    assert_eq!(c.image_height, 225);
    assert_eq!(c.samples_per_pixel, 100);
    assert_eq!(c.max_depth, 50);
    assert_eq!(c.pixel_count(), 90000);
}

#[test]
fn config_accepts_a_depth_of_zero() {
    assert!(RenderConfig::new(1, 1, 1, 0).is_ok());
}

#[test]
fn pixel_count_of_the_largest_image_fits() {
    assert_eq!(config(u32::MAX, u32::MAX).pixel_count(), 18446744065119617025);
    assert_eq!(config(0, 5).pixel_count(), 0);
}

#[test]
fn pixels_are_written_from_the_top_scanline_down() {
    let c = config(4, 3);
    assert_eq!(c.pixel_at(0), (0, 2));
    assert_eq!(c.pixel_at(1), (1, 2));
    assert_eq!(c.pixel_at(3), (3, 2));
    assert_eq!(c.pixel_at(4), (0, 1));
    assert_eq!(c.pixel_at(7), (3, 1));
    assert_eq!(c.pixel_at(8), (0, 0));
    assert_eq!(c.pixel_at(11), (3, 0));
}

#[test]
fn index_of_is_the_place_in_the_output() {
    let c = config(4, 3);
    assert_eq!(c.index_of(0, 2), 0);
    assert_eq!(c.index_of(3, 2), 3);
    assert_eq!(c.index_of(0, 1), 4);
    assert_eq!(c.index_of(2, 0), 10);
    assert_eq!(c.index_of(3, 0), 11);
}

#[test]
fn places_and_pixels_determine_each_other() {
    let c = config(7, 5);
    let mut seen = vec![false; 35];
    for k in 0..c.pixel_count() {
        let (i, j) = c.pixel_at(k);
        assert!(i < 7 && j < 5);
        assert_eq!(c.index_of(i, j), k);
        assert!(!seen[(j * 7 + i) as usize]);
        seen[(j * 7 + i) as usize] = true;
    }
    assert!(seen.iter().all(|&b| b));
}

#[test]
fn pixel_order_matches_nested_loops() {
    let c = config(5, 4);
    let mut k = 0;
    for j in (0..4u32).rev() {
        for i in 0..5u32 {
            assert_eq!(c.pixel_at(k), (i, j));
            k += 1;
        }
    }
}

#[test]
fn pixel_order_of_the_largest_image() {
    let c = config(u32::MAX, u32::MAX);
    let last = c.pixel_count() - 1;
    assert_eq!(c.pixel_at(last), (u32::MAX - 1, 0));
    assert_eq!(c.index_of(u32::MAX - 1, 0), last);
    assert_eq!(c.pixel_at(0), (0, u32::MAX - 1));
}

#[test]
fn pixel_seed_adds_the_place() {
    assert_eq!(pixel_seed(0, 0), 0);
    assert_eq!(pixel_seed(1000, 24), 1024);
    assert_eq!(pixel_seed(7, 89999), 90006);
}

#[test]
fn pixel_seed_wraps() {
    assert_eq!(pixel_seed(u64::MAX, 0), u64::MAX);
    assert_eq!(pixel_seed(u64::MAX, 1), 0);
    assert_eq!(pixel_seed(u64::MAX, 5), 4);
    assert_eq!(pixel_seed(u64::MAX - 2, u64::MAX), u64::MAX - 3);
    for (a, b) in [(3u64, 9u64), (u64::MAX, u64::MAX), (1 << 63, 1 << 63)] {
        assert_eq!(pixel_seed(a, b), a.wrapping_add(b));
    }
}

#[test]
fn pixel_seeds_of_one_render_differ() {
    let seeds: Vec<u64> = (0..1000u64).map(|k| pixel_seed(u64::MAX - 500, k)).collect();
    for a in 0..seeds.len() {
        for b in (a + 1)..seeds.len() {
            assert_ne!(seeds[a], seeds[b]);
        }
    }
}

#[test]
fn brighter_channel_is_never_written_darker() {
    let mut last = 0;
    for k in 0..=20000u32 {
        let x = -0.1 + k as f64 * 0.00006;
        let now = channel_value(s(x));
        assert!(now >= last, "{}", x);
        last = now;
    }
    assert_eq!(last, 255);
}

#[test]
fn image_has_one_line_feed_per_line() {
    let colors: Vec<Vec3> = (0..30).map(|k| v(k as f64 / 30.0, 0.999, 0.0)).collect();
    let text = match render(6, 5, &colors) {
        Some(text) => text,
        None => panic!("thirty colours fill six by five pixels"),
    };
    assert_eq!(text.iter().filter(|&&b| b == b'\n').count(), 3 + 30);
    assert_eq!(text.last(), Some(&b'\n'));
}
