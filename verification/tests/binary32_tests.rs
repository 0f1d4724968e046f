use volume_knob::binary32::{decade, is_nan, not_above, not_below, numbers_equal, percent_label, rounded_magnitude};

fn sample_bits() -> Vec<u32> {
    let mut v: Vec<u32> = vec![
        0x0000_0000, 0x8000_0000, 0x0000_0001, 0x8000_0001, 0x007f_ffff, 0x0080_0000,
        0x3f00_0000, // 0.5
        0x3fc0_0000, // 1.5
        0x4020_0000, // 2.5
        0x3eff_ffff, // just below 0.5
        0x3f00_0001, // just above 0.5
        0x4148_0000, // 12.5
        0x42c7_0000, // 99.5
        0x42c8_0000, // 100.0
        0x4120_0000, 0x4120_0001, 0x411f_ffff, 0x42b4_0000, 0x42b4_0001, 0x42b3_ffff,
        0x501502f9, // 1e10
        0x7f7f_ffff, 0xff7f_ffff, // +-MAX
        0x7f80_0000, 0xff80_0000, // +-inf
        0x7fc0_0000, 0xffc0_0000, 0x7f80_0001, // NaNs
        0x4b00_0000, 0x4b7f_ffff, 0x4affffff, 0x4b800001,
        0xbf00_0000, 0xbfc0_0000, 0xc2c8_0000, 0xbeff_ffff,
    ];
    let mut x: u32 = 0x1234_5678;
    for _ in 0..20000 {
        x = x.wrapping_mul(1_664_525).wrapping_add(1_013_904_223);
        v.push(x);
    }
    for k in 0..2000u32 {
        // values around the decades and small whole numbers
        v.push(f32::to_bits(k as f32 * 0.05));
        v.push(f32::to_bits(k as f32 * 0.5));
        v.push(f32::to_bits(-(k as f32) * 0.25));
    }
    v
}

#[test]
fn percent_label_matches_float_formatting() {
    for b in sample_bits() {
        let expected = format!("{:.0}%", f32::from_bits(b));
        assert_eq!(percent_label(b), expected, "bits {:#010x}", b);
    }
}

#[test]
fn rounded_magnitude_exact_values() {
    assert_eq!(rounded_magnitude(0x3f00_0000), 0); // 0.5 -> 0 (tie to even)
    assert_eq!(rounded_magnitude(0x3fc0_0000), 2); // 1.5 -> 2
    assert_eq!(rounded_magnitude(0x4020_0000), 2); // 2.5 -> 2
    assert_eq!(rounded_magnitude(0x4148_0000), 12); // 12.5 -> 12
    assert_eq!(rounded_magnitude(0x42c7_0000), 100); // 99.5 -> 100
    assert_eq!(rounded_magnitude(0xbfc0_0000), 2); // -1.5 -> magnitude 2
    assert_eq!(rounded_magnitude(0x7f7f_ffff), 340282346638528859811704183484516925440u128);
    assert_eq!(rounded_magnitude(0x0000_0001), 0);
}

#[test]
fn percent_label_special_values() {
    assert_eq!(percent_label(0x7fc0_0000), "NaN%");
    assert_eq!(percent_label(0xffc0_0000), "NaN%");
    assert_eq!(percent_label(0x7f80_0000), "inf%");
    assert_eq!(percent_label(0xff80_0000), "-inf%");
    assert_eq!(percent_label(0x8000_0000), "-0%");
    assert_eq!(percent_label(0x4248_0000), "50%");
    assert_eq!(percent_label(f32::to_bits(33.7)), "34%");
}

#[test]
fn comparisons_match_float_comparisons() {
    for k in 1..=9u32 {
        let c = decade(k);
        assert_eq!(f32::from_bits(c), (10 * k) as f32);
        for b in sample_bits() {
            let v = f32::from_bits(b);
            assert_eq!(not_above(b, c), v <= (10 * k) as f32, "bits {:#010x}", b);
            assert_eq!(not_below(b, c), v >= (10 * k) as f32, "bits {:#010x}", b);
        }
    }
    assert!(not_below(0x8000_0000, 0));
    assert!(!not_below(0x8000_0001, 0));
}

#[test]
fn equality_matches_float_equality() {
    let bits = sample_bits();
    for w in bits.windows(2) {
        let (a, b) = (w[0], w[1]);
        assert_eq!(numbers_equal(a, b), f32::from_bits(a) == f32::from_bits(b));
        assert_eq!(numbers_equal(a, a), f32::from_bits(a) == f32::from_bits(a));
    }
    assert!(numbers_equal(0x0000_0000, 0x8000_0000));
    assert!(!numbers_equal(0x7fc0_0000, 0x7fc0_0000));
    assert!(is_nan(0x7f80_0001));
    assert!(!is_nan(0x7f80_0000));
}

#[test]
fn printed_number_is_the_nearest_whole_number() {
    for b in sample_bits() {
        let v = f32::from_bits(b) as f64;
        if !v.is_finite() {
            continue;
        }
        let n = rounded_magnitude(b) as f64;
        assert!((n - v.abs()).abs() <= 0.5, "bits {:#010x}", b);
        let text = percent_label(b);
        let digits = text.trim_start_matches('-').trim_end_matches('%');
        assert_eq!(digits.parse::<u128>().unwrap(), rounded_magnitude(b));
    }
}
