use maze_geometry::color::{
    apply_jitter, comp_to_hex, draw_jitter, hex_as_srgb, hex_to_comp, jitter_channel,
    jitter_color, JitterDraw, DEFAULT_JITTER,
};
use maze_geometry::scalar::Scalar;

fn comp_to_linear(comp: u8) -> f32 {
    ((comp as f32 / 255.0 + 0.055) / 1.055).powf(2.4)
}

fn linear_curve() -> [Scalar; 256] {
    let mut curve = [Scalar::from_bits(0); 256];
    for c in 0..256usize {
        curve[c] = Scalar::from_bits(comp_to_linear(c as u8).to_bits());
    }
    curve
}

fn identity_curve() -> [Scalar; 256] {
    let mut curve = [Scalar::from_bits(0); 256];
    for c in 0..256usize {
        curve[c] = Scalar::from_bits(c as u32);
    }
    curve
}

fn draw(r: (u8, bool), g: (u8, bool), b: (u8, bool)) -> JitterDraw {
    JitterDraw { r_delta: r.0, g_delta: g.0, b_delta: b.0, r_add: r.1, g_add: g.1, b_add: b.1 }
}

/// Whether `out` is `c` moved up by less than `upper`, cut at 255, or down by
/// less than `upper`, modulo 256.
fn near(out: u8, c: u8, upper: u8) -> bool {
    (0..upper).any(|d| out == c.saturating_add(d) || out == c.wrapping_sub(d))
}

#[test]
fn hex_to_comp_splits_the_channels() {
    assert_eq!(hex_to_comp(0x4287F5), (0x42, 0x87, 0xF5));
    assert_eq!(hex_to_comp(0x000000), (0, 0, 0));
    assert_eq!(hex_to_comp(0xFFFFFF), (255, 255, 255));
    assert_eq!(hex_to_comp(0xFF0000), (255, 0, 0));
    assert_eq!(hex_to_comp(0x00FF00), (0, 255, 0));
    assert_eq!(hex_to_comp(0x0000FF), (0, 0, 255));
    assert_eq!(hex_to_comp(0x010203), (1, 2, 3));
}

#[test]
fn hex_to_comp_ignores_the_top_byte() {
    assert_eq!(hex_to_comp(0xAB4287F5), (0x42, 0x87, 0xF5));
    assert_eq!(hex_to_comp(0xFF000000), (0, 0, 0));
}

#[test]
fn comp_to_hex_joins_the_channels() {
    assert_eq!(comp_to_hex(0x42, 0x87, 0xF5), 0x4287F5);
    assert_eq!(comp_to_hex(0, 0, 0), 0);
    assert_eq!(comp_to_hex(255, 255, 255), 0xFFFFFF);
    assert_eq!(comp_to_hex(1, 2, 3), 0x010203);
}

#[test]
fn split_and_join_are_inverse_on_24_bits() {
    let mut color: u32 = 7;
    for _ in 0..2000 {
        color = color.wrapping_mul(1_664_525).wrapping_add(1_013_904_223);
        let (r, g, b) = hex_to_comp(color);
        assert_eq!(comp_to_hex(r, g, b), color & 0xFFFFFF);
    }
}

#[test]
fn hex_as_srgb_looks_each_channel_up() {
    let curve = identity_curve();
    let rgb = hex_as_srgb(0x4287F5, &curve);
    assert_eq!(rgb, [Scalar::from_bits(0x42), Scalar::from_bits(0x87), Scalar::from_bits(0xF5)]);
}

#[test]
fn hex_as_srgb_applies_the_transfer_curve() {
    let curve = linear_curve();
    let rgb = hex_as_srgb(0x4287F5, &curve);
    let expected = [comp_to_linear(0x42), comp_to_linear(0x87), comp_to_linear(0xF5)];
    for k in 0..3 {
        assert_eq!(rgb[k].to_bits(), expected[k].to_bits());
    }
    // ((66 / 255 + 0.055) / 1.055) ^ 2.4
    let red = f32::from_bits(rgb[0].to_bits());
    assert!((red - 0.054480).abs() < 1.0e-5, "{red}");
}

#[test]
fn hex_as_srgb_at_the_ends_of_the_curve() {
    let curve = linear_curve();
    let black = hex_as_srgb(0x000000, &curve);
    let white = hex_as_srgb(0xFFFFFF, &curve);
    for k in 0..3 {
        let lo = f32::from_bits(black[k].to_bits());
        let hi = f32::from_bits(white[k].to_bits());
        assert!((lo - 0.000834).abs() < 1.0e-5, "{lo}");
        assert!((hi - 1.0).abs() < 1.0e-6, "{hi}");
    }
}

#[test]
fn jitter_channel_adds_and_saturates() {
    assert_eq!(jitter_channel(100, 14, true), 114);
    assert_eq!(jitter_channel(250, 5, true), 255);
    assert_eq!(jitter_channel(250, 6, true), 255);
    assert_eq!(jitter_channel(250, 14, true), 255);
    assert_eq!(jitter_channel(255, 0, true), 255);
    assert_eq!(jitter_channel(255, 255, true), 255);
    assert_eq!(jitter_channel(0, 0, true), 0);
}

#[test]
fn jitter_channel_subtracts_and_wraps() {
    assert_eq!(jitter_channel(100, 14, false), 86);
    assert_eq!(jitter_channel(14, 14, false), 0);
    assert_eq!(jitter_channel(5, 10, false), 251);
    assert_eq!(jitter_channel(0, 1, false), 255);
    assert_eq!(jitter_channel(0, 255, false), 1);
    assert_eq!(jitter_channel(0, 0, false), 0);
    assert_eq!(jitter_channel(255, 0, false), 255);
}

#[test]
fn jitter_channel_agrees_with_the_machine_operations_everywhere() {
    for c in 0..=255u8 {
        for d in 0..=255u8 {
            assert_eq!(jitter_channel(c, d, true), c.saturating_add(d));
            assert_eq!(jitter_channel(c, d, false), c.wrapping_sub(d));
            assert_eq!(jitter_channel(c, d, false), c.wrapping_add((d ^ 0xFF).wrapping_add(1)));
        }
    }
}

#[test]
fn apply_jitter_moves_each_channel_by_its_own_draw() {
    let out = apply_jitter(0x4287F5, draw((3, true), (7, false), (0, true)));
    assert_eq!(out, 0x4580F5);
}

#[test]
fn apply_jitter_saturates_upwards_and_wraps_downwards() {
    // blue 0xF5 + 14 saturates; red 0x05 - 10 wraps to 251
    let out = apply_jitter(0x0587F5, draw((10, false), (0, false), (14, true)));
    assert_eq!(hex_to_comp(out), (251, 0x87, 255));
    assert_eq!(out, 0xFB87FF);
}

#[test]
fn apply_jitter_with_zero_magnitudes_keeps_the_colour() {
    for flags in 0..8u8 {
        let d = draw((0, flags & 1 != 0), (0, flags & 2 != 0), (0, flags & 4 != 0));
        assert_eq!(apply_jitter(0x4287F5, d), 0x4287F5);
    }
}

#[test]
fn apply_jitter_drops_the_top_byte() {
    let out = apply_jitter(0xAB4287F5, draw((1, true), (1, true), (1, true)));
    assert_eq!(out, 0x4388F6);
}

#[test]
fn draw_jitter_stays_below_the_range() {
    for upper in [1u8, 2, 15, 25, 255] {
        for _ in 0..500 {
            let d = draw_jitter(upper);
            assert!(d.r_delta < upper && d.g_delta < upper && d.b_delta < upper);
        }
    }
}

#[test]
fn draw_jitter_takes_both_directions_and_many_magnitudes() {
    let mut ups = 0;
    let mut downs = 0;
    let mut seen = [false; 15];
    for _ in 0..2000 {
        let d = draw_jitter(DEFAULT_JITTER);
        for flag in [d.r_add, d.g_add, d.b_add] {
            if flag {
                ups += 1;
            } else {
                downs += 1;
            }
        }
        seen[d.r_delta as usize] = true;
    }
    assert!(ups > 0 && downs > 0);
    assert!(seen.iter().all(|s| *s));
}

#[test]
fn jitter_color_with_range_one_changes_nothing() {
    for _ in 0..300 {
        assert_eq!(jitter_color(0x000000, Some(1)), 0x000000);
        assert_eq!(jitter_color(0x4287F5, Some(1)), 0x4287F5);
    }
}

#[test]
fn jitter_color_components_stay_in_range_over_many_trials() {
    for _ in 0..3000 {
        let out = jitter_color(0x4287F5, None);
        assert!(out <= 0xFFFFFF);
        let (r, g, b) = hex_to_comp(out);
        assert!(near(r, 0x42, 15), "{r}");
        assert!(near(g, 0x87, 15), "{g}");
        assert!(near(b, 0xF5, 15), "{b}");
    }
}

#[test]
fn jitter_color_defaults_to_a_range_of_fifteen() {
    assert_eq!(DEFAULT_JITTER, 15);
    for _ in 0..3000 {
        let (r, _, _) = hex_to_comp(jitter_color(0x808080, None));
        assert!((0x80 - 14..=0x80 + 14).contains(&r), "{r}");
    }
}

#[test]
fn jitter_color_honours_a_given_range() {
    let mut widest = 0;
    for _ in 0..3000 {
        let (r, g, b) = hex_to_comp(jitter_color(0x808080, Some(25)));
        for c in [r, g, b] {
            assert!((0x80 - 24..=0x80 + 24).contains(&c), "{c}");
            widest = widest.max((c as i32 - 0x80).abs());
        }
    }
    assert!(widest > 14, "{widest}");
}

#[test]
fn jitter_color_saturating_path_never_passes_255() {
    for _ in 0..3000 {
        let (r, g, b) = hex_to_comp(jitter_color(0xFFFFFF, Some(25)));
        for c in [r, g, b] {
            // upwards: stays at 255; downwards: 255 - d
            assert!(c >= 255 - 24, "{c}");
        }
    }
}

#[test]
fn jitter_color_wrapping_path_wraps_past_zero() {
    let mut wrapped = false;
    for _ in 0..3000 {
        let (r, g, b) = hex_to_comp(jitter_color(0x000000, Some(25)));
        for c in [r, g, b] {
            // upwards: d < 25; downwards: 0 or 256 - d > 231
            assert!(c < 25 || c > 231, "{c}");
            if c > 231 {
                wrapped = true;
            }
        }
    }
    assert!(wrapped);
}

#[test]
fn jitter_color_ignores_the_top_byte() {
    for _ in 0..300 {
        assert!(jitter_color(0xFF4287F5, None) <= 0xFFFFFF);
    }
}

#[test]
fn jitter_color_rolls_anew_on_every_call() {
    let first = jitter_color(0x808080, Some(255));
    let mut differs = false;
    for _ in 0..200 {
        if jitter_color(0x808080, Some(255)) != first {
            differs = true;
        }
    }
    assert!(differs);
}
