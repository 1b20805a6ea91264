use tshirt_checker::hsla::HslaTransform;
use tshirt_checker::{Hsla, Rgba};

fn is_close(expected: &Rgba, actual: &Rgba) -> bool {
    let rd = ((expected.r as i32) - (actual.r as i32)).abs();
    let gd = ((expected.g as i32) - (actual.g as i32)).abs();
    let bd = ((expected.b as i32) - (actual.b as i32)).abs();
    let ad = ((expected.a as i32) - (actual.a as i32)).abs();
    rd <= 1 && gd <= 1 && bd <= 1 && ad == 0
}

const RED: Rgba = Rgba { r: 255, g: 0, b: 0, a: 255 };
const GREEN: Rgba = Rgba { r: 0, g: 255, b: 0, a: 255 };
const BLUE: Rgba = Rgba { r: 0, g: 0, b: 255, a: 255 };

#[test]
fn test_identities() {
    for r in 0..16 {
        for g in 0..16 {
            for b in 0..16 {
                let original = Rgba::new(r * 17, g * 17, b * 17, 255);
                let hsla = Hsla::from_rgba(&original);
                let converted = hsla.to_rgba();
                assert!(
                    is_close(&original, &converted),
                    "expected = {:?} actual = {:?} hsla = {:?}",
                    original,
                    converted,
                    hsla
                );
            }
        }
    }
}

#[test]
fn test_hue_shift_1() {
    let red = Hsla::from_rgba(&RED);
    let green = Hsla::from_rgba(&GREEN);
    let blue = Hsla::from_rgba(&BLUE);

    {
        let red_to_green_shift = Hsla::calc_hue_shift(RED, GREEN);
        let shifted = Hsla::new(Hsla::hue_shift(red.h, red_to_green_shift), red.s, red.l, red.a);
        assert_eq!(green, shifted);
    }

    {
        let green_to_blue_shift = Hsla::calc_hue_shift(GREEN, BLUE);
        let shifted =
            Hsla::new(Hsla::hue_shift(green.h, green_to_blue_shift), green.s, green.l, green.a);
        assert_eq!(blue, shifted);
    }

    {
        let blue_to_red_shift = Hsla::calc_hue_shift(BLUE, RED);
        let shifted = Hsla::new(Hsla::hue_shift(blue.h, blue_to_red_shift), blue.s, blue.l, blue.a);
        assert_eq!(red, shifted);
    }
}

#[test]
fn calculate_hue_shift_properly() {
    // Original artwork is mostly green, but we want to make it mostly blue
    let original_green = Rgba::new(0, 255, 0, 255);
    let target_blue = Rgba::new(0, 0, 255, 255);

    // Convert the shift needed to do that in HSLA space
    let shift = Hsla::calc_hue_shift(original_green, target_blue);

    // Test: Convert a red tinged green with white saturation
    let input_green = Rgba::new(152, 255, 127, 255);
    let hsla_green = Hsla::from_rgba(&input_green);

    // Do the shift in HSLA space
    let green_shifted = Hsla {
        h: (hsla_green.h + shift) % (1024 * 6),
        s: hsla_green.s,
        l: hsla_green.l,
        a: hsla_green.a,
    };

    // Expected - a green tinged blue with white saturation
    let expected_blue = Rgba::new(126, 151, 255, 255);
    assert_eq!(expected_blue, green_shifted.to_rgba());
}

#[test]
fn converts_primary_and_grey_colours_to_fixed_point_hsla() {
    // h = 2 (green), s = 1, l = 1/2
    assert_eq!(Hsla::new(2 << 10, 1 << 10, 1 << 9, 255), Hsla::from_rgba(&GREEN));
    // grey: no saturation, hue 0, lightness 192 * 1024 / 255 = 771
    assert_eq!(Hsla::new(0, 0, 771, 255), Hsla::from_rgba(&Rgba::new(192, 192, 192, 255)));
    // pink: red hue, full saturation, lightness half way between red and white
    assert_eq!(Hsla::new(0, 1024, 769, 255), Hsla::from_rgba(&Rgba::new(255, 128, 128, 255)));
    // alpha is carried through unchanged
    assert_eq!(7, Hsla::from_rgba(&Rgba::new(10, 20, 30, 7)).a);
}

#[test]
fn converts_fixed_point_hsla_to_primary_colours() {
    assert_eq!(Rgba::new(255, 0, 0, 255), Hsla::new(0, 1024, 512, 255).to_rgba());
    assert_eq!(Rgba::new(0, 255, 0, 255), Hsla::new(2048, 1024, 512, 255).to_rgba());
    assert_eq!(Rgba::new(0, 0, 255, 255), Hsla::new(4096, 1024, 512, 255).to_rgba());
    // h = 1 (yellow), s = 1, l = .75 (toward white)
    assert_eq!(Rgba::new(255, 255, 127, 255), Hsla::new(1024, 1024, 768, 255).to_rgba());
    // no saturation gives grey
    assert_eq!(Rgba::new(127, 127, 127, 9), Hsla::new(3000, 0, 512, 9).to_rgba());
}

#[test]
fn hue_shift_wraps_at_a_full_turn() {
    assert_eq!(100, Hsla::hue_shift(6000, 244));
    assert_eq!(0, Hsla::hue_shift(6143, 1));
    assert_eq!(4096, Hsla::calc_hue_shift(BLUE, GREEN));
}

#[test]
fn round_trip_stays_within_one_step_for_every_channel_value() {
    for v in 0..=255u8 {
        for (r, g, b) in [(v, 0, 0), (0, v, 0), (0, 0, v), (v, v, v), (v, 255 - v, 60)] {
            let original = Rgba::new(r, g, b, 200);
            let converted = Hsla::from_rgba(&original).to_rgba();
            assert!(is_close(&original, &converted), "{:?} {:?}", original, converted);
        }
    }
}

fn gamma_table(source: f32, target: f32) -> Vec<u16> {
    if target == 0.0 || target == 1.0 || source == 0.0 || source == 1.0 {
        (0..=1024u16).collect()
    } else {
        let gamma = target.ln() / source.ln();
        (0..=1024u16)
            .map(|n| (n as f32) / 1024.0)
            .map(|n| n.powf(gamma))
            .map(|n| (n * 1024.0) as u16)
            .collect()
    }
}

fn transform_between(source: Rgba, target: Rgba) -> HslaTransform {
    let source_hsla = Hsla::from_rgba(&source);
    let target_hsla = Hsla::from_rgba(&target);
    let ht = Hsla::calc_hue_shift(source, target);
    let st = gamma_table((source_hsla.s as f32) / 1024.0, (target_hsla.s as f32) / 1024.0);
    let lt = gamma_table((source_hsla.l as f32) / 1024.0, (target_hsla.l as f32) / 1024.0);
    HslaTransform::new(ht, st, lt)
}

#[test]
fn do_hsla_transforms_properly() {
    let green = Rgba::new(0, 255, 0, 255);
    let dblue = Rgba::new(0, 0, 128, 255);
    let green_to_dblue = transform_between(green, dblue);

    let identity_result = green_to_dblue.apply(&green);
    assert!(is_close(&identity_result, &dblue), "{:?}", identity_result);

    let new_candidate = Rgba::new(32, 128, 64, 255);
    let new_result = green_to_dblue.apply(&new_candidate);
    let expected = Rgba::new(20, 10, 40, 255);
    assert!(is_close(&expected, &new_result), "{:?}", new_result);
}

#[test]
fn identity_transform_is_the_round_trip() {
    let identity = HslaTransform::new(0, (0..=1024).collect(), (0..=1024).collect());
    for c in [Rgba::new(12, 200, 99, 3), Rgba::new(255, 255, 255, 255), Rgba::new(0, 0, 0, 0)] {
        assert_eq!(Hsla::from_rgba(&c).to_rgba(), identity.apply(&c));
    }
}

#[test]
fn hue_rotation_alone_turns_green_into_blue() {
    let shift = HslaTransform::new(
        Hsla::calc_hue_shift(GREEN, BLUE),
        (0..=1024).collect(),
        (0..=1024).collect(),
    );
    assert_eq!(BLUE, shift.apply(&GREEN));
    assert_eq!(7, shift.apply(&Rgba::new(1, 2, 3, 7)).a);
}

#[test]
fn converts_colours_outside_the_unit_range_where_the_channels_fit() {
    let bright_grey = Hsla::new(0, 0, 1028, 1);
    assert!(bright_grey.is_convertible());
    assert_eq!(Rgba::new(255, 255, 255, 1), bright_grey.to_rgba());
    assert!(!Hsla::new(0, 0, 1029, 1).is_convertible());

    let black = Hsla::new(100, 5000, 0, 9);
    assert!(black.is_convertible());
    assert_eq!(Rgba::new(0, 0, 0, 9), black.to_rgba());

    let dim = Hsla::new(0, 1025, 1, 255);
    assert!(dim.is_convertible());
    assert_eq!(Rgba::new(0, 0, 0, 255), dim.to_rgba());

    assert!(!Hsla::new(0, 1024, 2000, 255).is_convertible());
    assert!(!Hsla::new(0, 65535, 65535, 255).is_convertible());
    assert!(Hsla::new(4096, 1024, 512, 255).is_convertible());
}

#[test]
fn transform_applies_only_where_its_tables_reach() {
    let short = HslaTransform::new(0, vec![0; 10], (0..=1024).collect());
    assert!(short.can_apply(&Rgba::new(0, 0, 0, 255)));
    assert!(!short.can_apply(&Rgba::new(255, 0, 0, 255)));
    let bright = HslaTransform::new(0, (0..=1024).collect(), vec![4000; 1025]);
    assert!(!bright.can_apply(&Rgba::new(30, 60, 90, 255)));
    let wrap = HslaTransform::new(65000, (0..=1024).collect(), (0..=1024).collect());
    assert!(wrap.can_apply(&Rgba::new(255, 0, 0, 255)));
    assert!(!wrap.can_apply(&Rgba::new(0, 0, 255, 255)));
    let identity = HslaTransform::new(0, (0..=1024).collect(), (0..=1024).collect());
    assert!(identity.can_apply(&Rgba::new(12, 34, 56, 78)));
}
