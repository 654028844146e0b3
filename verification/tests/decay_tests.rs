use npc_neural_affect_matrix::decay::{decay_weight_of, grid_value};
use npc_neural_affect_matrix::emotion::{clamp_component, EmotionPrediction, RawPrediction};
use npc_neural_affect_matrix::{AFFECT_MAX, AFFECT_MIN, WEIGHT_ONE};

const HOUR: u64 = 3600;

#[test]
fn weight_one_is_two_to_the_32() {
    assert_eq!(WEIGHT_ONE, 4_294_967_296);
}

#[test]
fn fresh_memory_has_full_weight() {
    assert_eq!(decay_weight_of(0, HOUR), WEIGHT_ONE);
    assert_eq!(decay_weight_of(0, 1), WEIGHT_ONE);
    assert_eq!(decay_weight_of(0, u64::MAX), WEIGHT_ONE);
}

#[test]
fn weight_halves_every_half_life() {
    assert_eq!(decay_weight_of(HOUR, HOUR), WEIGHT_ONE / 2);
    assert_eq!(decay_weight_of(2 * HOUR, HOUR), WEIGHT_ONE / 4);
    assert_eq!(decay_weight_of(10 * HOUR, HOUR), WEIGHT_ONE / 1024);
    assert_eq!(decay_weight_of(32 * HOUR, HOUR), 1);
}

#[test]
fn weight_between_halvings_is_the_exponential() {
    // 2^32 * 0.5^(1/2) = 3037000499.97..
    assert_eq!(decay_weight_of(HOUR / 2, HOUR), 3_037_000_499);
    // 2^32 * 0.5^(3/2) = 1518500249.98..
    assert_eq!(decay_weight_of(HOUR + HOUR / 2, HOUR), 1_518_500_249);
    // 2^32 * 0.5^(1/4) = 3611622602.8..
    assert_eq!(decay_weight_of(1, 4), 3_611_622_602);
    // 2^32 * 0.5^(1/3) = 3408917801.9..; a third is no step of the grid, and
    // the chord lies 173 units (0.00000004) above the exponential there.
    assert_eq!(decay_weight_of(1, 3), 3_408_917_975);
}

#[test]
fn weight_agrees_with_the_exponential_to_a_tenth_of_a_millionth() {
    let one = WEIGHT_ONE as f64;
    for half_life in [1u64, 2, 3, 7, 60, 1000, 3600, 86_400, 1_000_000_007] {
        let span = half_life.saturating_mul(34);
        let stride = std::cmp::max(span / 4001, 1);
        let mut age = 0u64;
        while age < span {
            let exact = 0.5f64.powf(age as f64 / half_life as f64) * one;
            let got = decay_weight_of(age, half_life) as f64;
            assert!((got - exact).abs() <= one * 1.0e-7, "age {} half-life {}", age, half_life);
            assert!(got >= exact - 1.0, "age {} half-life {}", age, half_life);
            age += stride;
        }
    }
}

#[test]
fn grid_values_are_powers_of_the_last_root() {
    assert_eq!(grid_value(0), 1 << 62);
    assert_eq!(grid_value(1), 0x3ff4_e9d4_703d_f842);
    assert_eq!(grid_value(512), 0x2d41_3ccc_fe77_9921);
    assert_eq!(grid_value(1024), 1 << 61);
    assert_eq!(grid_value(u64::MAX), 1 << 61);
    let one = (1u128 << 62) as f64;
    let mut previous = grid_value(0);
    for j in 1..=1024u64 {
        let v = grid_value(j);
        assert!(v < previous);
        let exact = 0.5f64.powf(j as f64 / 1024.0) * one;
        assert!((v as f64 - exact).abs() <= one * 1.0e-14, "step {}", j);
        previous = v;
    }
}

#[test]
fn very_old_memory_has_no_weight() {
    assert_eq!(decay_weight_of(33 * HOUR, HOUR), 0);
    assert_eq!(decay_weight_of(u64::MAX, 1), 0);
    assert_eq!(decay_weight_of(u64::MAX, HOUR), 0);
}

#[test]
fn half_life_longer_than_any_age() {
    assert_eq!(decay_weight_of(u64::MAX - 1, u64::MAX), 2_147_483_648);
}

#[test]
fn older_memory_weighs_strictly_less() {
    let mut previous = decay_weight_of(0, HOUR);
    let mut age = 1;
    while age < 19 * HOUR {
        let w = decay_weight_of(age, HOUR);
        assert!(w < previous, "age {}", age);
        previous = w;
        age += 997;
    }
}

#[test]
fn neighbouring_seconds_differ_within_resolution() {
    for age in 0..(3 * 60) {
        assert!(decay_weight_of(age + 1, 60) < decay_weight_of(age, 60));
    }
}

#[test]
fn weight_never_grows_with_age() {
    let mut previous = decay_weight_of(0, 7);
    for age in 1..400 {
        let w = decay_weight_of(age, 7);
        assert!(w <= previous);
        previous = w;
    }
    // Past the resolution, neighbouring ages coincide.
    assert_eq!(decay_weight_of(40 * HOUR, HOUR), decay_weight_of(41 * HOUR, HOUR));
}

#[test]
fn clamp_component_keeps_values_in_range() {
    assert_eq!(clamp_component(0), 0);
    assert_eq!(clamp_component(800_000), 800_000);
    assert_eq!(clamp_component(-1_000_000), AFFECT_MIN);
    assert_eq!(clamp_component(1_000_000), AFFECT_MAX);
}

#[test]
fn clamp_component_cuts_values_out_of_range() {
    assert_eq!(clamp_component(1_000_001), 1_000_000);
    assert_eq!(clamp_component(-1_000_001), -1_000_000);
    assert_eq!(clamp_component(i64::MAX), 1_000_000);
    assert_eq!(clamp_component(i64::MIN), -1_000_000);
}

#[test]
fn from_raw_clamps_each_component() {
    let e = EmotionPrediction::from_raw(RawPrediction { valence: 2_500_000, arousal: -300_000 });
    assert_eq!(e, EmotionPrediction { valence: 1_000_000, arousal: -300_000 });
    let e = EmotionPrediction::from_raw(RawPrediction { valence: -7, arousal: -9_000_000 });
    assert_eq!(e, EmotionPrediction { valence: -7, arousal: -1_000_000 });
}

#[test]
fn in_range_tells_valid_affects() {
    assert!(EmotionPrediction { valence: 1_000_000, arousal: -1_000_000 }.in_range());
    assert!(!EmotionPrediction { valence: 1_000_001, arousal: 0 }.in_range());
    assert!(!EmotionPrediction { valence: 0, arousal: -1_000_001 }.in_range());
}

#[test]
fn faded_memory_still_weighs_less_than_a_fresh_one() {
    // The older memory is far beyond the resolution; the younger one is within it.
    assert!(decay_weight_of(100 * HOUR, HOUR) < decay_weight_of(0, HOUR));
    assert!(decay_weight_of(33 * HOUR, HOUR) < decay_weight_of(19 * HOUR, HOUR));
}
