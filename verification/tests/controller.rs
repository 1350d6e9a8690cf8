use neomatrix::animations::pulse::nmPulse;
use neomatrix::animations::sine::nmSin;
use neomatrix::animations::snake::nmSnake;
use neomatrix::animations::wave::nmWave;
use neomatrix::animations::{blank, fill, Pixel, HEIGHT, NUM_PX, WIDTH};
use neomatrix::controller::{Controller, CADENCE};
use neomatrix::selector::{Orientation, MODE_BLANK};

const RED: Pixel = Pixel { r: 255, g: 0, b: 0 };
const BLUE: Pixel = Pixel { r: 0, g: 0, b: 50 };
const GREEN: Pixel = Pixel { r: 0, g: 30, b: 0 };
const DARK: Pixel = Pixel { r: 0, g: 0, b: 0 };

fn controller() -> Controller {
    Controller::new(nmPulse::new(10, 1), nmSnake::new(RED), nmWave::new(BLUE), nmSin::new(GREEN))
}

fn reading(x: f32, y: f32, z: f32) -> Orientation {
    Orientation { x: x.to_bits(), y: y.to_bits(), z: z.to_bits() }
}

fn level() -> Orientation {
    reading(0.0, 0.0, 1.0)
}

#[test]
fn grid_is_eight_by_eight() {
    assert_eq!(WIDTH, 8);
    assert_eq!(HEIGHT, 8);
    assert_eq!(NUM_PX, 64);
    assert_eq!(CADENCE, 9);
}

#[test]
fn blank_frame_is_dark_and_fill_paints_it() {
    let mut frame = blank();
    assert_eq!(frame, [DARK; 64]);
    fill(&mut frame, RED);
    assert_eq!(frame, [RED; 64]);
}

#[test]
fn controller_starts_blank_and_due_for_a_frame() {
    let controller = controller();
    assert_eq!(controller.mode(), MODE_BLANK);
    assert_eq!(controller.ticks(), 9);
}

#[test]
fn controller_renders_on_every_ninth_iteration() {
    let mut controller = controller();
    for iteration in 1..=100usize {
        let frame = controller.step(level());
        assert_eq!(frame.is_some(), iteration % 9 == 1);
        assert_eq!(controller.ticks() as usize, (iteration - 1) % 9 + 1);
    }
}

#[test]
fn controller_shows_a_dark_frame_until_a_threshold_is_crossed() {
    let mut controller = controller();
    for _ in 0..30 {
        if let Some(frame) = controller.step(level()) {
            assert_eq!(frame, [DARK; 64]);
        }
        assert_eq!(controller.mode(), MODE_BLANK);
    }
}

#[test]
fn controller_follows_the_readings_on_every_iteration() {
    let mut controller = controller();
    assert!(controller.step(reading(0.9, 0.0, 0.0)).is_some());
    assert_eq!(controller.mode(), 0);
    assert!(controller.step(reading(0.0, 0.0, 0.0)).is_none());
    assert_eq!(controller.mode(), 0);
    assert!(controller.step(reading(0.0, 0.9, 0.0)).is_none());
    assert_eq!(controller.mode(), 2);
    assert!(controller.step(reading(-0.9, 0.9, 0.0)).is_none());
    assert_eq!(controller.mode(), 1);
    assert!(controller.step(reading(0.0, -0.9, 0.0)).is_none());
    assert_eq!(controller.mode(), 3);
}

#[test]
fn controller_shows_the_generator_of_the_mode() {
    let mut pulse = nmPulse::new(10, 1);
    let mut snake = nmSnake::new(RED);
    let mut wave = nmWave::new(BLUE);
    let mut sine = nmSin::new(GREEN);
    let mut controller = controller();
    let readings = [
        reading(0.9, 0.0, 0.0),
        reading(-0.9, 0.0, 0.0),
        reading(0.0, 0.9, 0.0),
        reading(0.0, -0.9, 0.0),
    ];
    for round in 0..40usize {
        let turn = readings[round % 4];
        let frame = controller.step(turn).unwrap();
        pulse.next();
        snake.next();
        wave.next();
        sine.next();
        let expected = match round % 4 {
            0 => wave.to_list(),
            1 => pulse.to_list(),
            2 => sine.to_list(),
            _ => snake.to_list(),
        };
        assert_eq!(controller.mode() as usize, round % 4);
        assert_eq!(frame, expected);
        for _ in 0..8 {
            assert!(controller.step(level()).is_none());
        }
    }
}

#[test]
fn controller_keeps_hidden_generators_in_step() {
    let mut controller = controller();
    let mut snake = nmSnake::new(RED);
    for _ in 0..5 {
        assert!(controller.step(level()).is_some());
        snake.next();
        for _ in 0..8 {
            assert!(controller.step(level()).is_none());
        }
    }
    let frame = controller.step(reading(0.0, -0.95, 0.0)).unwrap();
    snake.next();
    assert_eq!(snake.state().primary, 6);
    assert_eq!(frame, snake.to_list());
}

#[test]
fn controller_shows_the_mode_of_the_latest_reading() {
    let mut controller = controller();
    assert!(controller.step(level()).is_some());
    assert!(controller.step(reading(0.9, 0.0, 0.0)).is_none());
    for _ in 0..7 {
        assert!(controller.step(level()).is_none());
    }
    let frame = controller.step(reading(-0.9, 0.0, 0.0)).unwrap();
    assert_eq!(frame, [Pixel { r: 2, g: 2, b: 2 }; 64]);
}

#[test]
fn controller_built_twice_shows_the_same_frames() {
    let mut first = controller();
    let mut second = controller();
    let readings = [
        level(),
        reading(0.0, 0.9, 0.0),
        level(),
        reading(0.85, 0.0, 0.0),
        reading(0.0, -0.9, 0.0),
        reading(-1.0, 0.0, 0.0),
    ];
    for iteration in 0..200usize {
        let turn = readings[(iteration / 7) % readings.len()];
        assert_eq!(first.step(turn), second.step(turn));
        assert_eq!(first.mode(), second.mode());
        assert_eq!(first.ticks(), second.ticks());
    }
}
