use neomatrix::animations::wave::{dim, nmWave};
use neomatrix::animations::Pixel;

const BLUE: Pixel = Pixel { r: 0, g: 0, b: 50 };
const DARK: Pixel = Pixel { r: 0, g: 0, b: 0 };

fn line_of(frame: &[Pixel; 64], line: usize) -> [Pixel; 8] {
    let mut pixels = [DARK; 8];
    for primary in 0..8 {
        pixels[primary] = frame[line * 8 + primary];
    }
    pixels
}

#[test]
fn wave_starts_dark_with_the_lead_on_the_last_line() {
    let wave = nmWave::new(BLUE);
    assert_eq!(wave.lead(), 7);
    assert_eq!(wave.shadows(), [6, 5, 4, 3, 2, 1, 0]);
    assert_eq!(wave.to_list(), [DARK; 64]);
}

#[test]
fn wave_dims_each_channel_by_a_seventh_per_tier() {
    assert_eq!(dim(BLUE, 1), Pixel::new(1, 1, 44));
    assert_eq!(dim(BLUE, 2), Pixel::new(1, 1, 37));
    assert_eq!(dim(BLUE, 3), Pixel::new(1, 1, 30));
    assert_eq!(dim(BLUE, 4), Pixel::new(1, 1, 23));
    assert_eq!(dim(BLUE, 5), Pixel::new(1, 1, 16));
    assert_eq!(dim(BLUE, 6), Pixel::new(1, 1, 9));
    assert_eq!(dim(BLUE, 7), Pixel::new(1, 1, 2));
}

#[test]
fn wave_dimming_at_the_edges_of_the_channel_range() {
    assert_eq!(dim(Pixel::new(255, 254, 252), 1), Pixel::new(220, 219, 217));
    assert_eq!(dim(Pixel::new(255, 254, 252), 7), Pixel::new(4, 3, 1));
    assert_eq!(dim(Pixel::new(0, 6, 7), 1), Pixel::new(1, 7, 7));
    assert_eq!(dim(Pixel::new(0, 6, 7), 7), Pixel::new(1, 7, 1));
    assert_eq!(dim(Pixel::new(13, 14, 20), 1), Pixel::new(13, 13, 19));
    assert_eq!(dim(Pixel::new(13, 14, 20), 7), Pixel::new(7, 1, 7));
}

#[test]
fn wave_dimming_never_leaves_the_channel_range() {
    for channel in 0..=255u8 {
        let mut previous = channel as i32 + 1;
        for tier in 1..=7u8 {
            let shade = dim(Pixel::new(channel, channel, channel), tier);
            let exact = channel as i32 - (channel as i32 / 7) * tier as i32 + 1;
            assert!((1..=255).contains(&exact));
            assert_eq!(shade, Pixel::new(exact as u8, exact as u8, exact as u8));
            if channel >= 7 {
                assert!(exact < previous);
            } else {
                assert_eq!(exact, channel as i32 + 1);
            }
            previous = exact;
        }
    }
}

#[test]
fn wave_first_frame_has_the_lead_on_line_zero() {
    let mut wave = nmWave::new(BLUE);
    wave.next();
    assert_eq!(wave.lead(), 0);
    assert_eq!(wave.shadows(), [7, 6, 5, 4, 3, 2, 1]);
    let frame = wave.to_list();
    assert_eq!(line_of(&frame, 0), [BLUE; 8]);
    assert_eq!(line_of(&frame, 7), [Pixel::new(1, 1, 44); 8]);
    assert_eq!(line_of(&frame, 6), [Pixel::new(1, 1, 37); 8]);
    assert_eq!(line_of(&frame, 5), [Pixel::new(1, 1, 30); 8]);
    assert_eq!(line_of(&frame, 4), [Pixel::new(1, 1, 23); 8]);
    assert_eq!(line_of(&frame, 3), [Pixel::new(1, 1, 16); 8]);
    assert_eq!(line_of(&frame, 2), [Pixel::new(1, 1, 9); 8]);
    assert_eq!(line_of(&frame, 1), [Pixel::new(1, 1, 2); 8]);
}

#[test]
fn wave_has_eight_full_pixels_and_seven_dimmer_lines_at_every_tick() {
    let mut wave = nmWave::new(BLUE);
    for tick in 1..=40usize {
        wave.next();
        let lead = wave.lead();
        assert_eq!(lead, (7 + tick) % 8);
        let frame = wave.to_list();
        let full = frame.iter().filter(|pixel| **pixel == BLUE).count();
        assert_eq!(full, 8);
        assert_eq!(line_of(&frame, lead), [BLUE; 8]);
        let shadows = wave.shadows();
        let mut brightness = 50u8;
        for (i, line) in shadows.iter().enumerate() {
            assert_eq!(*line, (lead + 7 - i) % 8);
            let shade = dim(BLUE, (i + 1) as u8);
            assert_eq!(line_of(&frame, *line), [shade; 8]);
            assert!(shade.b < brightness);
            brightness = shade.b;
        }
    }
}

#[test]
fn wave_lines_never_share_a_coordinate() {
    let mut wave = nmWave::new(BLUE);
    for _ in 0..24 {
        wave.next();
        let mut taken = [false; 8];
        taken[wave.lead()] = true;
        for line in wave.shadows() {
            assert!(line < 8);
            assert!(!taken[line]);
            taken[line] = true;
        }
        assert_eq!(taken, [true; 8]);
    }
}

#[test]
fn wave_with_channels_from_7_to_13_has_a_first_shadow_as_bright_as_the_lead() {
    let color = Pixel::new(7, 10, 13);
    let mut wave = nmWave::new(color);
    wave.next();
    let frame = wave.to_list();
    assert_eq!(frame.iter().filter(|pixel| **pixel == color).count(), 16);
}

#[test]
fn wave_set_paints_one_line() {
    let mut wave = nmWave::new(BLUE);
    wave.set(3, Pixel::new(9, 8, 7));
    let frame = wave.to_list();
    for index in 0..64 {
        if (24..32).contains(&index) {
            assert_eq!(frame[index], Pixel::new(9, 8, 7));
        } else {
            assert_eq!(frame[index], DARK);
        }
    }
    assert_eq!(wave.lead(), 7);
    assert_eq!(wave.shadows(), [6, 5, 4, 3, 2, 1, 0]);
}

#[test]
fn wave_set_beyond_the_grid_paints_nothing() {
    let mut wave = nmWave::new(BLUE);
    wave.next();
    let before = wave.to_list();
    wave.set(8, Pixel::new(9, 8, 7));
    wave.set(usize::MAX, Pixel::new(9, 8, 7));
    assert_eq!(wave.to_list(), before);
}

#[test]
fn wave_clear_darkens_the_frame_and_keeps_the_lines() {
    let mut wave = nmWave::new(BLUE);
    wave.next();
    wave.next();
    wave.clear();
    assert_eq!(wave.to_list(), [DARK; 64]);
    assert_eq!(wave.lead(), 1);
    assert_eq!(wave.shadows(), [0, 7, 6, 5, 4, 3, 2]);
}

#[test]
fn wave_built_twice_shows_the_same_frames() {
    let mut first = nmWave::new(Pixel::new(200, 100, 50));
    let mut second = nmWave::new(Pixel::new(200, 100, 50));
    for _ in 0..50 {
        first.next();
        second.next();
        assert_eq!(first.lead(), second.lead());
        assert_eq!(first.shadows(), second.shadows());
        assert_eq!(first.to_list(), second.to_list());
    }
}
