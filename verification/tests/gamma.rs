use waywarm::binary64::{ratio, Binary64};
use waywarm::config::Levels;
use waywarm::gamma::{gamma_ramps, warmth_to_kelvin};

#[test]
fn maps_warmth_endpoints() {
    assert_eq!(warmth_to_kelvin(0), 6500);
    assert_eq!(warmth_to_kelvin(50), 4500);
    assert_eq!(warmth_to_kelvin(100), 2500);
}

#[test]
fn ramps_are_sized_bounded_and_monotonic() {
    let ramps = gamma_ramps(256, Levels { warmth: 70, brightness: 80 });
    assert_eq!(ramps.len(), 768);
    for channel in ramps.chunks(256) {
        assert_eq!(channel[0], 0);
        assert!(channel.windows(2).all(|pair| pair[0] <= pair[1]));
    }
}

#[test]
fn neutral_ramp_reaches_nearly_full_white() {
    let ramps = gamma_ramps(2, Levels::neutral());
    assert!(ramps[1] > 64_000);
    assert!(ramps[3] > 64_000);
    assert_eq!(ramps[5], u16::MAX);
}

#[test]
fn warm_ramp_reduces_green_and_blue() {
    let ramps = gamma_ramps(2, Levels { warmth: 100, brightness: 100 });
    let [red, green, blue] = [ramps[1], ramps[3], ramps[5]];
    assert!(red > green);
    assert!(green > blue);
}

fn kelvin_of(warmth: u8) -> u16 {
    (6500.0 - (warmth.min(100) as f64 / 100.0) * 4000.0).round() as u16
}

/// The display white point as an approximation of black-body radiation.
fn white_point(kelvin: u16) -> [f64; 3] {
    if kelvin >= 6500 {
        return [1.0, 1.0, 1.0];
    }
    let temp = kelvin as f64 / 100.0;
    let green = 99.470_802_586_1 * temp.ln() - 161.119_568_166_1;
    let blue = 138.517_731_223_1 * (temp - 10.0).ln() - 305.044_792_730_7;
    [255.0, green, blue].map(|value: f64| value.clamp(0.0, 255.0) / 255.0)
}

/// Ramps in double-precision arithmetic.
fn reference(size: usize, levels: Levels) -> Vec<u16> {
    let brightness = levels.brightness as f64 / 100.0;
    let mut ramps = Vec::new();
    for multiplier in white_point(kelvin_of(levels.warmth)) {
        for index in 0..size {
            let input = if size == 1 { 1.0 } else { index as f64 / (size - 1) as f64 };
            let value = (u16::MAX as f64 * input * multiplier * brightness)
                .round()
                .clamp(0.0, u16::MAX as f64) as u16;
            ramps.push(value);
        }
    }
    ramps
}

#[test]
fn every_warmth_has_its_colour_temperature() {
    for warmth in 0..=255u8 {
        assert_eq!(warmth_to_kelvin(warmth), kelvin_of(warmth));
    }
}

#[test]
fn ramps_agree_with_double_precision_arithmetic_at_every_warmth() {
    for warmth in 0..=101u8 {
        let levels = Levels { warmth, brightness: 100 };
        assert_eq!(gamma_ramps(48, levels), reference(48, levels), "warmth {warmth}");
    }
}

#[test]
fn ramps_agree_with_double_precision_arithmetic_at_every_brightness() {
    for brightness in 0..=255u8 {
        let levels = Levels { warmth: 37, brightness };
        assert_eq!(gamma_ramps(17, levels), reference(17, levels), "brightness {brightness}");
    }
}

#[test]
fn ramps_agree_with_double_precision_arithmetic_at_every_size() {
    for size in [0u32, 1, 2, 3, 5, 100, 255, 256, 257, 1024] {
        let levels = Levels { warmth: 63, brightness: 85 };
        assert_eq!(gamma_ramps(size, levels), reference(size as usize, levels), "size {size}");
    }
}

#[test]
fn ramps_give_exact_values() {
    assert_eq!(gamma_ramps(3, Levels::neutral()), vec![0, 32768, 65535, 0, 32768, 65535, 0, 32768, 65535]);
    assert_eq!(gamma_ramps(1, Levels { warmth: 0, brightness: 50 }), vec![32768, 32768, 32768]);
    assert_eq!(gamma_ramps(1, Levels { warmth: 0, brightness: 255 }), vec![65535, 65535, 65535]);
    assert!(gamma_ramps(0, Levels::neutral()).is_empty());
}

#[test]
fn more_warmth_takes_green_and_blue_away_and_keeps_red() {
    let mut last = gamma_ramps(16, Levels { warmth: 0, brightness: 90 });
    for warmth in 1..=100u8 {
        let ramps = gamma_ramps(16, Levels { warmth, brightness: 90 });
        assert_eq!(ramps[..16], last[..16]);
        assert!(ramps.iter().zip(&last).all(|(now, before)| now <= before));
        assert!(ramps[31] < ramps[15] && ramps[47] < ramps[31]);
        last = ramps;
    }
}

/// The units in one.
const UNIT: f64 = 77_371_252_455_336_267_181_195_264.0;

#[test]
fn arithmetic_agrees_with_double_precision() {
    let counts = [0u32, 1, 2, 3, 7, 59, 60, 99, 100, 255, 1439, 65_535, 1_000_003];
    for a in counts {
        for b in counts {
            if b == 0 {
                continue;
            }
            let x = a as f64 / b as f64;
            assert_eq!(ratio(a, b).units() as f64, x * UNIT, "{a} / {b}");
            for c in [1u32, 3, 240, 977] {
                let y = c as f64 / 1009.0;
                let share = ratio(c, 1009);
                assert_eq!(ratio(a, b).plus(&share).units() as f64, (x + y) * UNIT);
                if x <= 10_000.0 {
                    assert_eq!(ratio(a, b).times(&share).units() as f64, x * y * UNIT);
                }
                assert_eq!(
                    ratio(a, b).over_count(c).units() as f64,
                    x / c as f64 * UNIT,
                    "{a} / {b} / {c}"
                );
                if x >= y {
                    assert_eq!(ratio(a, b).minus(&share).units() as f64, (x - y) * UNIT);
                }
                assert_eq!(
                    share.times_count(a).units() as f64,
                    y * a as f64 * UNIT,
                    "{c} / 1009 * {a}"
                );
            }
            assert_eq!(ratio(a, b).to_whole() as f64, x.round(), "{a} / {b}");
        }
        assert_eq!(Binary64::from_count(a).to_whole(), a as u128);
    }
    assert_eq!(Binary64::new(3, 85).to_whole(), 2);
}
