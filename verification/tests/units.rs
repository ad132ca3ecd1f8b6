use quota_control::units::{append_decimal, human_readable, scale, Magnitude, LADDER_LEN};

/// The same rendering, computed in floating point.
fn float_rendering(value: u64, bytes: bool) -> String {
    let sizes = ["K", "M", "G", "T", "Y", "Z", "E"];
    let mut scaled = value as f64;
    let mut steps = 0usize;
    while scaled >= 1024.0 && steps < sizes.len() {
        scaled /= 1024.0;
        steps += 1;
    }
    let suffix = if bytes { "B" } else { "" };
    if value < 1024 && !bytes {
        format!("{}", value)
    } else if value < 1024 {
        format!("{} {}", value, suffix)
    } else if scaled.fract() == 0.0 {
        format!("{:.0} {}{}", scaled, sizes[steps - 1], suffix)
    } else {
        format!("{:.2} {}{}", scaled, sizes[steps - 1], suffix)
    }
}

#[test]
fn small_counts_are_bare_numbers() {
    for value in 0u64..1024 {
        assert_eq!(human_readable(value, false), value.to_string());
    }
}

#[test]
fn small_byte_counts_carry_the_byte_mark() {
    for value in 0u64..1024 {
        assert_eq!(human_readable(value, true), format!("{} B", value));
    }
}

#[test]
fn zero_is_rendered() {
    assert_eq!(human_readable(0, false), "0");
    assert_eq!(human_readable(0, true), "0 B");
}

#[test]
fn largest_unscaled_value() {
    assert_eq!(human_readable(1023, false), "1023");
    assert_eq!(human_readable(1023, true), "1023 B");
}

#[test]
fn one_kilo() {
    assert_eq!(human_readable(1024, false), "1 K");
    assert_eq!(human_readable(1024, true), "1 KB");
}

#[test]
fn one_and_a_half_kilobytes() {
    assert_eq!(human_readable(1536, true), "1.50 KB");
    assert_eq!(human_readable(1536, false), "1.50 K");
}

#[test]
fn one_gigabyte() {
    assert_eq!(human_readable(1073741824, true), "1 GB");
}

#[test]
fn whole_megabytes_have_no_decimals() {
    assert_eq!(human_readable(4 * 1024 * 1024, true), "4 MB");
}

#[test]
fn fractional_megabytes_have_two_decimals() {
    assert_eq!(human_readable(4 * 1024 * 1024 + 512 * 1024, true), "4.50 MB");
}

#[test]
fn every_unit_of_the_ladder_in_reach() {
    assert_eq!(human_readable(1 << 10, false), "1 K");
    assert_eq!(human_readable(1 << 20, false), "1 M");
    assert_eq!(human_readable(1 << 30, false), "1 G");
    assert_eq!(human_readable(1 << 40, false), "1 T");
    assert_eq!(human_readable(1 << 50, false), "1 Y");
    assert_eq!(human_readable(1 << 60, false), "1 Z");
}

#[test]
fn just_below_a_unit_rounds_up_to_it() {
    assert_eq!(human_readable(1024 * 1024 - 1, false), "1024.00 K");
}

#[test]
fn a_tie_goes_to_the_even_hundredth() {
    // 1152 / 1024 = 1.125 and 1184 / 1024 = 1.15625; 1.375 lies between 1.37 and 1.38.
    assert_eq!(human_readable(1152, false), "1.12 K");
    assert_eq!(human_readable(1408, false), "1.38 K");
    assert_eq!(human_readable(1184, false), "1.16 K");
}

#[test]
fn the_largest_count() {
    assert_eq!(human_readable(u64::MAX, true), "16.00 ZB");
    assert_eq!(human_readable(u64::MAX, false), "16.00 Z");
}

#[test]
fn one_above_a_unit_is_not_whole() {
    assert_eq!(human_readable(1025, false), "1.00 K");
    assert_eq!(human_readable((1 << 60) + 1, false), "1.00 Z");
}

#[test]
fn agrees_with_floating_point_on_edges() {
    let mut values: Vec<u64> = Vec::new();
    for shift in 10..53u32 {
        let unit = 1u64 << shift;
        for delta in [0u64, 1, 2, 5, 10, 511, 512, 513, 1000] {
            values.push(unit + delta);
            values.push(unit - delta.min(unit));
            values.push(3 * (unit / 2) + delta);
        }
    }
    for value in values {
        if value < (1u64 << 53) {
            assert_eq!(human_readable(value, true), float_rendering(value, true), "{}", value);
            assert_eq!(human_readable(value, false), float_rendering(value, false), "{}", value);
        }
    }
}

#[test]
fn agrees_with_floating_point_on_a_sweep() {
    for value in 0u64..200_000 {
        assert_eq!(human_readable(value, true), float_rendering(value, true), "{}", value);
    }
}

#[test]
fn agrees_with_floating_point_on_scattered_values() {
    let mut state: u64 = 0x2545_f491_4f6c_dd1d;
    for _ in 0..200_000 {
        state ^= state << 13;
        state ^= state >> 7;
        state ^= state << 17;
        let value = state >> (11 + (state % 43) as u32);
        assert_eq!(human_readable(value, false), float_rendering(value, false), "{}", value);
    }
}

#[test]
fn scaling_small_values_takes_no_step() {
    let m = scale(1000);
    assert_eq!(m, Magnitude { steps: 0, whole: 1000, exact: true, hundredths: 100_000 });
}

#[test]
fn scaling_reports_steps_and_parts() {
    assert_eq!(scale(1536), Magnitude { steps: 1, whole: 1, exact: false, hundredths: 150 });
    assert_eq!(scale(1 << 30), Magnitude { steps: 3, whole: 1, exact: true, hundredths: 100 });
    assert_eq!(scale(5 << 40), Magnitude { steps: 4, whole: 5, exact: true, hundredths: 500 });
}

#[test]
fn scaling_never_uses_up_the_ladder() {
    let m = scale(u64::MAX);
    assert_eq!(m.steps, 6);
    assert!(m.steps < LADDER_LEN);
    assert_eq!(m.whole, 15);
    assert_eq!(m.hundredths, 1600);
    assert!(!m.exact);
}

#[test]
fn scaled_back_stays_within_half_a_hundredth() {
    let mut state: u64 = 88172645463325252;
    for _ in 0..50_000 {
        state ^= state << 13;
        state ^= state >> 7;
        state ^= state << 17;
        let value = state >> (state % 64) as u32;
        let m = scale(value);
        assert!(m.steps <= 7);
        let unit: u128 = 1u128 << (10 * m.steps as u32);
        let back = m.hundredths as u128 * unit;
        let exact = 100 * value as u128;
        let gap = if back > exact { back - exact } else { exact - back };
        assert!(2 * gap <= unit, "{}", value);
        assert!(m.whole < 1024);
        assert_eq!(m.whole as u128, value as u128 / unit);
    }
}

#[test]
fn decimal_is_appended() {
    let mut text = String::from("n=");
    append_decimal(&mut text, 0);
    append_decimal(&mut text, 907);
    append_decimal(&mut text, u64::MAX);
    assert_eq!(text, "n=090718446744073709551615");
}
