use neomatrix::animations::pulse::{nmPulse, PulseState};
use neomatrix::animations::Pixel;

fn gray(level: u8) -> Pixel {
    Pixel::new(level, level, level)
}

fn counters(brightness: u8, step: u8, ticks: usize) -> Vec<u8> {
    let mut pulse = nmPulse::new(brightness, step);
    let mut seen = Vec::new();
    for _ in 0..ticks {
        pulse.next();
        seen.push(pulse.state().counter);
    }
    seen
}

#[test]
fn pulse_starts_dark_at_counter_zero() {
    let pulse = nmPulse::new(10, 1);
    assert_eq!(
        pulse.state(),
        PulseState { counter: 0, descending: false, step: 1, brightness_cap: 10 }
    );
    assert_eq!(pulse.to_list(), [Pixel::new(0, 0, 0); 64]);
}

#[test]
fn pulse_breathes_as_a_triangle_wave() {
    let mut expected: Vec<u8> = Vec::new();
    expected.extend(1..=10u8);
    expected.extend((1..=9u8).rev());
    expected.extend(2..=10u8);
    expected.extend((1..=9u8).rev());
    expected.extend(2..=10u8);
    assert_eq!(counters(10, 1, expected.len()), expected);
}

#[test]
fn pulse_stays_between_zero_and_the_cap() {
    for counter in counters(10, 1, 1000) {
        assert!(counter <= 10);
    }
    for counter in counters(12, 4, 1000) {
        assert!(counter <= 12);
    }
    for counter in counters(200, 0, 50) {
        assert_eq!(counter, 0);
    }
}

#[test]
fn pulse_frame_is_uniform_gray_of_the_counter() {
    let mut pulse = nmPulse::new(10, 1);
    for _ in 0..40 {
        pulse.next();
        let level = pulse.state().counter;
        assert_eq!(pulse.to_list(), [gray(level); 64]);
    }
}

#[test]
fn pulse_first_ticks_have_exact_values() {
    let mut pulse = nmPulse::new(10, 1);
    pulse.next();
    assert_eq!(
        pulse.state(),
        PulseState { counter: 1, descending: false, step: 1, brightness_cap: 10 }
    );
    for _ in 0..9 {
        pulse.next();
    }
    assert_eq!(pulse.state().counter, 10);
    assert!(!pulse.state().descending);
    pulse.next();
    assert_eq!(
        pulse.state(),
        PulseState { counter: 9, descending: true, step: 1, brightness_cap: 10 }
    );
}

#[test]
fn pulse_step_that_misses_the_cap_overshoots_it() {
    assert_eq!(counters(10, 3, 9), vec![3, 6, 9, 12, 9, 6, 3, 0, 3]);
}

#[test]
fn pulse_descent_below_zero_stops_at_zero() {
    assert_eq!(counters(255, 100, 8), vec![100, 200, 255, 155, 55, 0, 100, 200]);
}

#[test]
fn pulse_ascent_above_255_stops_at_255() {
    assert_eq!(counters(255, 200, 4), vec![200, 255, 55, 0]);
}

#[test]
fn pulse_small_caps_turn_at_one() {
    assert_eq!(counters(0, 1, 6), vec![1, 2, 1, 2, 1, 2]);
    assert_eq!(counters(1, 1, 6), vec![1, 2, 1, 2, 1, 2]);
    assert_eq!(counters(2, 1, 6), vec![1, 2, 1, 2, 1, 2]);
}

#[test]
fn pulse_set_paints_every_pixel_and_keeps_the_state() {
    let mut pulse = nmPulse::new(10, 1);
    pulse.next();
    let before = pulse.state();
    pulse.set(Pixel::new(1, 2, 3));
    assert_eq!(pulse.to_list(), [Pixel::new(1, 2, 3); 64]);
    assert_eq!(pulse.state(), before);
    pulse.next();
    assert_eq!(pulse.to_list(), [gray(2); 64]);
}

#[test]
fn pulse_built_twice_shows_the_same_frames() {
    let mut first = nmPulse::new(37, 5);
    let mut second = nmPulse::new(37, 5);
    assert_eq!(first.to_list(), second.to_list());
    for _ in 0..300 {
        first.next();
        second.next();
        assert_eq!(first.state(), second.state());
        assert_eq!(first.to_list(), second.to_list());
    }
}
