use vstd::prelude::*;
use crate::animations::{Pixel, NUM_PX, blank, dark_frame, gray, uniform_frame};
use crate::animations::pulse::{
    nmPulse, PulseState, pulse_advance, pulse_after, pulse_frame_after, pulse_start,
};
use crate::animations::sine::{
    lemma_sine_after, nmSin, SineState, sine_advance, sine_after, sine_frame, sine_frame_after,
    sine_start, sine_wf,
};
use crate::animations::snake::{
    nmSnake, SnakeState, snake_advance, snake_after, snake_frame, snake_frame_after, snake_start,
    snake_wf,
};
use crate::animations::wave::{
    lemma_wave_after, nmWave, WaveState, wave_advance, wave_after, wave_frame, wave_frame_after,
    wave_start, wave_wf,
};
use crate::selector::{
    Orientation, MODE_BLANK, MODE_PULSE, MODE_SINE, MODE_SNAKE, MODE_WAVE, beyond_threshold,
    next_mode, select_mode,
};

verus! {

/// Number of control-loop iterations from one render step to the next.
pub const CADENCE: u8 = 9;

/// What the controller remembers between iterations of the control loop.
pub struct ControllerState {
    pub pulse: PulseState,
    pub snake: SnakeState,
    pub snake_color: Pixel,
    pub wave: WaveState,
    pub wave_color: Pixel,
    pub sine: SineState,
    pub sine_color: Pixel,
    /// The mode chosen by the latest reading that passed a threshold.
    pub mode: u8,
    /// Iterations counted since the latest render step, that step included.
    pub ticks: u8,
}

/// The generators are well formed and the tick counter has not passed the
/// cadence.
pub open spec fn controller_wf(s: ControllerState) -> bool {
    &&& snake_wf(s.snake)
    &&& wave_wf(s.wave)
    &&& sine_wf(s.sine)
    &&& 1 <= s.ticks <= CADENCE
}

/// The iteration that starts in state `s` performs a render step.
pub open spec fn controller_renders(s: ControllerState) -> bool {
    s.ticks > 8
}

/// One iteration of the control loop.
///
/// The mode follows the reading on every iteration.  On a render step all
/// four generators tick, whichever of them is visible, and the counter
/// starts again; on any other iteration the generators rest and the counter
/// goes up by one.
pub open spec fn controller_step(s: ControllerState, reading: Orientation) -> ControllerState {
    if controller_renders(s) {
        ControllerState {
            pulse: pulse_advance(s.pulse),
            snake: snake_advance(s.snake),
            snake_color: s.snake_color,
            wave: wave_advance(s.wave),
            wave_color: s.wave_color,
            sine: sine_advance(s.sine),
            sine_color: s.sine_color,
            mode: next_mode(s.mode, reading),
            ticks: 1,
        }
    } else {
        ControllerState {
            mode: next_mode(s.mode, reading),
            ticks: (s.ticks + 1) as u8,
            ..s
        }
    }
}

/// The frame that a render step shows when it ends in state `s`: the frame
/// of the generator that the mode selects, freshly ticked, or the dark frame
/// for a mode that selects none.
pub open spec fn controller_frame(s: ControllerState) -> Seq<Pixel> {
    if s.mode == MODE_WAVE {
        wave_frame(s.wave_color, s.wave.lead as int)
    } else if s.mode == MODE_PULSE {
        uniform_frame(gray(s.pulse.counter))
    } else if s.mode == MODE_SINE {
        sine_frame(s.sine_color, (s.sine.offset + 13) % 14)
    } else if s.mode == MODE_SNAKE {
        snake_frame(s.snake, s.snake_color)
    } else {
        dark_frame()
    }
}

/// What an iteration hands to the display: a frame on a render step,
/// nothing otherwise.
pub open spec fn controller_output(s: ControllerState, reading: Orientation) -> Option<
    Seq<Pixel>,
> {
    if controller_renders(s) {
        Some(controller_frame(controller_step(s, reading)))
    } else {
        None
    }
}

/// The tick counter before iteration `n + 1` of a controller that has run
/// `n` iterations since its construction.
pub open spec fn ticks_after(n: nat) -> int {
    if n == 0 {
        9
    } else {
        (n - 1) % 9 + 1
    }
}

/// Keeps the four generators in step and shows the one that the mode selects.
pub struct Controller {
    pulse: nmPulse,
    snake: nmSnake,
    wave: nmWave,
    sine: nmSin,
    mode: u8,
    nticks: u8,
}

impl View for Controller {
    type V = ControllerState;

    closed spec fn view(&self) -> ControllerState {
        ControllerState {
            pulse: self.pulse@,
            snake: self.snake@,
            snake_color: self.snake.base_color(),
            wave: self.wave@,
            wave_color: self.wave.base_color(),
            sine: self.sine@,
            sine_color: self.sine.base_color(),
            mode: self.mode,
            ticks: self.nticks,
        }
    }
}

impl Controller {
    /// The generators are well formed and the tick counter has not passed
    /// the cadence.
    pub open spec fn wf(&self) -> bool {
        controller_wf(self@)
    }

    /// A controller around the four generators, in the blank mode and due
    /// for a render step on its first iteration.
    pub fn new(pulse: nmPulse, snake: nmSnake, wave: nmWave, sine: nmSin) -> (controller:
        Controller)
        requires
            snake.wf(),
            wave.wf(),
            sine.wf(),
        ensures
            controller.wf(),
            controller@ == (ControllerState {
                pulse: pulse@,
                snake: snake@,
                snake_color: snake.base_color(),
                wave: wave@,
                wave_color: wave.base_color(),
                sine: sine@,
                sine_color: sine.base_color(),
                mode: MODE_BLANK,
                ticks: CADENCE,
            }),
    {
        Controller { pulse, snake, wave, sine, mode: MODE_BLANK, nticks: CADENCE }
    }

    /// The current mode.
    pub fn mode(&self) -> (mode: u8)
        ensures
            mode == self@.mode,
    {
        self.mode
    }

    /// Iterations counted since the latest render step.
    pub fn ticks(&self) -> (ticks: u8)
        ensures
            ticks == self@.ticks,
    {
        self.nticks
    }

    /// One iteration of the control loop: takes the reading, and on every
    /// ninth iteration ticks all four generators and returns the frame of
    /// the one that the mode selects.
    pub fn step(&mut self, reading: Orientation) -> (frame: Option<[Pixel; NUM_PX]>)
        requires
            old(self).wf(),
        ensures
            final(self).wf(),
            final(self)@ == controller_step(old(self)@, reading),
            match frame {
                Some(shown) => controller_output(old(self)@, reading) == Some(shown@),
                None => controller_output(old(self)@, reading) is None,
            },
    {
        self.mode = select_mode(self.mode, reading);
        if self.nticks > 8 {
            self.nticks = 1;
            self.pulse.next();
            self.snake.next();
            self.wave.next();
            self.sine.next();
            let shown: [Pixel; NUM_PX] = if self.mode == MODE_WAVE {
                self.wave.to_list()
            } else if self.mode == MODE_PULSE {
                self.pulse.to_list()
            } else if self.mode == MODE_SINE {
                self.sine.to_list()
            } else if self.mode == MODE_SNAKE {
                self.snake.to_list()
            } else {
                blank()
            };
            assert(old(self)@.sine.offset == (self@.sine.offset + 13) % 14);
            Some(shown)
        } else {
            self.nticks = self.nticks + 1;
            None
        }
    }
}

/// A tick keeps the controller well formed.
pub proof fn lemma_controller_step_keeps_wf(s: ControllerState, reading: Orientation)
    requires
        controller_wf(s),
    ensures
        controller_wf(controller_step(s, reading)),
{
}

/// The render cadence: a controller that counts `ticks_after(n)` counts
/// `ticks_after(n + 1)` one iteration later, so that the iterations 1, 10,
/// 19, ... after construction, and no others, perform a render step.
pub proof fn lemma_render_cadence(s: ControllerState, reading: Orientation, n: nat)
    requires
        s.ticks == ticks_after(n),
    ensures
        controller_step(s, reading).ticks == ticks_after(n + 1),
        controller_renders(s) <==> n % 9 == 0,
        1 <= ticks_after(n) <= 9,
{
}

/// State reached from `s` after one iteration for each of `readings`, in
/// their order.
pub open spec fn controller_after(s: ControllerState, readings: Seq<Orientation>) -> ControllerState
    decreases readings.len(),
{
    if readings.len() == 0 {
        s
    } else {
        controller_step(controller_after(s, readings.drop_last()), readings.last())
    }
}

/// Number of render steps among the first `n` iterations of a controller.
pub open spec fn renders_within(n: nat) -> nat {
    ((n + 8) / 9) as nat
}

/// The four generators stay in step: whatever the readings were and whichever
/// generator was visible, after `n` iterations each of them has ticked once
/// for every render step so far, so that a change of mode never restarts an
/// animation.
pub proof fn lemma_generators_stay_in_step(s: ControllerState, readings: Seq<Orientation>)
    requires
        controller_wf(s),
        s.ticks == CADENCE,
    ensures
        controller_wf(controller_after(s, readings)),
        controller_after(s, readings).ticks == ticks_after(readings.len()),
        controller_after(s, readings).pulse == pulse_after(
            s.pulse,
            renders_within(readings.len()),
        ),
        controller_after(s, readings).snake == snake_after(
            s.snake,
            renders_within(readings.len()),
        ),
        controller_after(s, readings).wave == wave_after(s.wave, renders_within(readings.len())),
        controller_after(s, readings).sine == sine_after(s.sine, renders_within(readings.len())),
        controller_after(s, readings).snake_color == s.snake_color,
        controller_after(s, readings).wave_color == s.wave_color,
        controller_after(s, readings).sine_color == s.sine_color,
    decreases readings.len(),
{
    if readings.len() > 0 {
        let earlier = readings.drop_last();
        lemma_generators_stay_in_step(s, earlier);
        lemma_controller_step_keeps_wf(controller_after(s, earlier), readings.last());
        lemma_render_cadence(controller_after(s, earlier), readings.last(), earlier.len());
    }
}

/// A controller around four generators that have not ticked yet.
pub open spec fn controller_start(s: ControllerState, brightness_cap: u8, step: u8) -> bool {
    &&& s.pulse == pulse_start(brightness_cap, step)
    &&& s.snake == snake_start()
    &&& s.wave == wave_start()
    &&& s.sine == sine_start()
    &&& s.ticks == CADENCE
}

/// The frame of a render step is the frame that the selected generator
/// would hold had it been ticked alone, once for every render step so far:
/// a generator that becomes visible is found in phase.
pub proof fn lemma_shown_frame_is_in_phase(
    s: ControllerState,
    brightness_cap: u8,
    step: u8,
    readings: Seq<Orientation>,
)
    requires
        controller_start(s, brightness_cap, step),
        readings.len() > 0,
    ensures
        renders_within(readings.len()) >= 1,
        controller_frame(controller_after(s, readings)) == {
            let mode = controller_after(s, readings).mode;
            let ticks = renders_within(readings.len());
            if mode == MODE_WAVE {
                wave_frame_after(s.wave_color, ticks)
            } else if mode == MODE_PULSE {
                pulse_frame_after(brightness_cap, step, ticks)
            } else if mode == MODE_SINE {
                sine_frame_after(s.sine_color, ticks)
            } else if mode == MODE_SNAKE {
                snake_frame_after(s.snake_color, ticks)
            } else {
                dark_frame()
            }
        },
{
    let ticks = renders_within(readings.len());
    lemma_wave_after(0);
    lemma_sine_after(0);
    lemma_generators_stay_in_step(s, readings);
    lemma_sine_after(ticks);
    let shown = (ticks - 1) as int;
    assert((ticks % 14 + 13) % 14 == shown % 14);
}

/// Readings of which none passes a threshold on the x or the y axis leave
/// the mode where it was, however many they are.
pub proof fn lemma_mode_outlasts_quiet_readings(s: ControllerState, readings: Seq<Orientation>)
    requires
        forall|i: int|
            0 <= i < readings.len() ==> !beyond_threshold((#[trigger] readings[i]).x)
                && !beyond_threshold(readings[i].y),
    ensures
        controller_after(s, readings).mode == s.mode,
    decreases readings.len(),
{
    if readings.len() > 0 {
        lemma_mode_outlasts_quiet_readings(s, readings.drop_last());
    }
}

} // verus!
