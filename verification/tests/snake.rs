use neomatrix::animations::snake::{nmSnake, SnakeState};
use neomatrix::animations::Pixel;

const RED: Pixel = Pixel { r: 255, g: 0, b: 0 };
const DARK: Pixel = Pixel { r: 0, g: 0, b: 0 };

fn lit(frame: &[Pixel; 64]) -> Vec<usize> {
    let mut found = Vec::new();
    for (index, pixel) in frame.iter().enumerate() {
        if *pixel != DARK {
            found.push(index);
        }
    }
    found
}

#[test]
fn snake_starts_dark_in_the_corner() {
    let snake = nmSnake::new(RED);
    assert_eq!(snake.state(), SnakeState { primary: 0, secondary: 0, ascending: true });
    assert_eq!(snake.to_list(), [DARK; 64]);
}

#[test]
fn snake_reaches_the_far_end_after_seven_ticks() {
    let mut snake = nmSnake::new(RED);
    for tick in 1..=7usize {
        snake.next();
        assert_eq!(snake.state(), SnakeState { primary: tick, secondary: 0, ascending: true });
    }
    assert_eq!(snake.state().primary, 7);
}

#[test]
fn snake_turns_into_the_next_lane_on_the_eighth_tick() {
    let mut snake = nmSnake::new(RED);
    for _ in 0..8 {
        snake.next();
    }
    assert_eq!(snake.state(), SnakeState { primary: 7, secondary: 1, ascending: false });
    assert_eq!(lit(&snake.to_list()), vec![15]);
    snake.next();
    assert_eq!(snake.state(), SnakeState { primary: 6, secondary: 1, ascending: false });
    for _ in 0..6 {
        snake.next();
    }
    assert_eq!(snake.state(), SnakeState { primary: 0, secondary: 1, ascending: false });
    snake.next();
    assert_eq!(snake.state(), SnakeState { primary: 0, secondary: 2, ascending: true });
}

#[test]
fn snake_visits_every_pixel_once_in_64_ticks() {
    let mut snake = nmSnake::new(RED);
    let mut visits = [0usize; 64];
    for _ in 0..64 {
        snake.next();
        let state = snake.state();
        assert!(state.primary < 8 && state.secondary < 8);
        visits[state.secondary * 8 + state.primary] += 1;
    }
    assert_eq!(visits, [1usize; 64]);
    assert_eq!(snake.state(), SnakeState { primary: 0, secondary: 0, ascending: true });
}

#[test]
fn snake_repeats_after_64_ticks() {
    let mut snake = nmSnake::new(RED);
    let mut first_round = Vec::new();
    for _ in 0..64 {
        snake.next();
        first_round.push(snake.to_list());
    }
    for frame in first_round.iter() {
        snake.next();
        assert_eq!(snake.to_list(), *frame);
    }
}

#[test]
fn snake_frame_has_one_lit_pixel_at_its_position() {
    let mut snake = nmSnake::new(RED);
    for _ in 0..200 {
        snake.next();
        let state = snake.state();
        let frame = snake.to_list();
        assert_eq!(lit(&frame), vec![state.secondary * 8 + state.primary]);
        assert_eq!(frame[state.secondary * 8 + state.primary], RED);
    }
}

#[test]
fn snake_second_lane_is_lit_at_linear_index_eight_plus_primary() {
    let mut snake = nmSnake::new(Pixel::new(1, 2, 3));
    for _ in 0..10 {
        snake.next();
    }
    assert_eq!(snake.state(), SnakeState { primary: 5, secondary: 1, ascending: false });
    let mut expected = [DARK; 64];
    expected[13] = Pixel::new(1, 2, 3);
    assert_eq!(snake.to_list(), expected);
}

#[test]
fn snake_set_repaints_the_current_position() {
    let mut snake = nmSnake::new(RED);
    snake.set();
    let mut expected = [DARK; 64];
    expected[0] = RED;
    assert_eq!(snake.to_list(), expected);
    assert_eq!(snake.state(), SnakeState { primary: 0, secondary: 0, ascending: true });
}

#[test]
fn snake_in_dark_colour_lights_nothing() {
    let mut snake = nmSnake::new(DARK);
    snake.next();
    assert_eq!(snake.to_list(), [DARK; 64]);
}

#[test]
fn snake_built_twice_shows_the_same_frames() {
    let mut first = nmSnake::new(RED);
    let mut second = nmSnake::new(RED);
    for _ in 0..150 {
        first.next();
        second.next();
        assert_eq!(first.state(), second.state());
        assert_eq!(first.to_list(), second.to_list());
    }
}
