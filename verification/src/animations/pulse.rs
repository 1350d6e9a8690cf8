use vstd::prelude::*;
use vstd::arithmetic::div_mod::{lemma_fundamental_div_mod, lemma_fundamental_div_mod_converse};
use crate::animations::{Pixel, NUM_PX, gray, dark_frame, uniform_frame, fill};

verus! {

/// What the pulse generator remembers between ticks.
#[derive(Clone, Copy, Debug, PartialEq, Eq, Structural)]
pub struct PulseState {
    /// Brightness shown by the latest frame.
    pub counter: u8,
    /// Direction of travel: `true` while the brightness falls.
    pub descending: bool,
    /// Amount by which the brightness changes on each tick.
    pub step: u8,
    /// Brightness at which the generator turns around and starts to fall.
    pub brightness_cap: u8,
}

/// State of a generator that has not ticked yet.
pub open spec fn pulse_start(brightness_cap: u8, step: u8) -> PulseState {
    PulseState { counter: 0, descending: false, step, brightness_cap }
}

/// Direction taken by the tick that starts in state `s`.
///
/// A counter of at most 1 turns the generator upwards, a counter that has
/// reached the cap turns it downwards, and in between it keeps its course.
pub open spec fn pulse_heading_down(s: PulseState) -> bool {
    if s.counter <= 1 {
        false
    } else if s.counter >= s.brightness_cap {
        true
    } else {
        s.descending
    }
}

/// One tick of the pulse generator.
///
/// The counter moves by `step` in the direction given by
/// `pulse_heading_down`.  The arithmetic saturates: a fall below 0 stops at 0
/// and a rise above 255 stops at 255.
pub open spec fn pulse_advance(s: PulseState) -> PulseState {
    let down = pulse_heading_down(s);
    let counter: u8 = if down {
        if s.counter >= s.step {
            (s.counter - s.step) as u8
        } else {
            0u8
        }
    } else {
        if s.counter + s.step <= 255 {
            (s.counter + s.step) as u8
        } else {
            255u8
        }
    };
    PulseState { counter, descending: down, step: s.step, brightness_cap: s.brightness_cap }
}

/// State reached from `s` after `n` ticks.
pub open spec fn pulse_after(s: PulseState, n: nat) -> PulseState
    decreases n,
{
    if n == 0 {
        s
    } else {
        pulse_advance(pulse_after(s, (n - 1) as nat))
    }
}

/// The triangle wave that a generator with step 1 follows: from 0 up to
/// `cap`, then down to 1 and up again, for ever.
pub open spec fn triangle_wave(cap: int, n: nat) -> int {
    if n == 0 {
        0
    } else {
        let phase = (n - 1) % (2 * (cap - 1));
        if phase < cap {
            phase + 1
        } else {
            2 * cap - 1 - phase
        }
    }
}

/// States from which the counter never leaves `0 ..= brightness_cap`: the
/// counter is within the cap and, unless the step is 0, the step divides
/// both the counter and a cap of at least 2.
pub open spec fn pulse_on_grid(s: PulseState) -> bool {
    &&& s.counter <= s.brightness_cap
    &&& s.step != 0 ==> {
        &&& s.brightness_cap >= 2
        &&& s.brightness_cap as int % s.step as int == 0
        &&& s.counter as int % s.step as int == 0
    }
}

proof fn lemma_mod_successor(n: int, p: int)
    requires
        0 <= n,
        0 < p,
    ensures
        (n + 1) % p == if n % p == p - 1 { 0 } else { n % p + 1 },
{
    lemma_fundamental_div_mod(n, p);
    let q = n / p;
    let r = n % p;
    assert(p * q == q * p) by (nonlinear_arith);
    if r == p - 1 {
        assert(n + 1 == (q + 1) * p + 0) by (nonlinear_arith)
            requires
                n == q * p + r,
                r == p - 1,
        ;
        lemma_fundamental_div_mod_converse(n + 1, p, q + 1, 0);
    } else {
        lemma_fundamental_div_mod_converse(n + 1, p, q, r + 1);
    }
}

proof fn lemma_multiples_keep_distance(a: int, b: int, d: int)
    requires
        0 < d,
        0 <= a < b,
        a % d == 0,
        b % d == 0,
    ensures
        a + d <= b,
{
    lemma_fundamental_div_mod(a, d);
    lemma_fundamental_div_mod(b, d);
    let x = a / d;
    let y = b / d;
    assert(x < y) by (nonlinear_arith)
        requires
            d * x < d * y,
            0 < d,
    ;
    assert(d * x + d <= d * y) by (nonlinear_arith)
        requires
            x + 1 <= y,
            0 < d,
    ;
}

proof fn lemma_multiple_stays_multiple(a: int, d: int, k: int)
    requires
        0 < d,
        a % d == 0,
        0 <= a + k * d,
    ensures
        (a + k * d) % d == 0,
{
    lemma_fundamental_div_mod(a, d);
    let q = a / d;
    assert(a + k * d == (q + k) * d + 0) by (nonlinear_arith)
        requires
            a == d * q,
    ;
    lemma_fundamental_div_mod_converse(a + k * d, d, q + k, 0);
}

/// A counter that starts on the grid of `pulse_on_grid` stays on it: where the
/// step divides a cap of at least 2, every tick leaves the counter within
/// `0 ..= brightness_cap`, and no tick saturates.
pub proof fn lemma_pulse_stays_on_grid(s: PulseState)
    requires
        pulse_on_grid(s),
    ensures
        pulse_on_grid(pulse_advance(s)),
        pulse_advance(s).counter <= s.brightness_cap,
        pulse_heading_down(s) ==> pulse_advance(s).counter == s.counter - s.step,
        !pulse_heading_down(s) ==> pulse_advance(s).counter == s.counter + s.step,
{
    if s.step != 0 {
        let d = s.step as int;
        let c = s.counter as int;
        let cap = s.brightness_cap as int;
        if pulse_heading_down(s) {
            assert(c >= d) by {
                lemma_multiples_keep_distance(0, c, d);
            }
            lemma_multiple_stays_multiple(c, d, -1);
        } else {
            lemma_multiples_keep_distance(c, cap, d);
            lemma_multiple_stays_multiple(c, d, 1);
        }
    }
}

/// Every state that a generator reaches, when it was built with a step that
/// divides a cap of at least 2 (or with step 0), has its counter within
/// `0 ..= brightness_cap`.
pub proof fn lemma_pulse_counter_bounded(brightness_cap: u8, step: u8, n: nat)
    requires
        step != 0 ==> brightness_cap >= 2 && brightness_cap as int % step as int == 0,
    ensures
        pulse_on_grid(pulse_after(pulse_start(brightness_cap, step), n)),
        pulse_after(pulse_start(brightness_cap, step), n).counter <= brightness_cap,
        pulse_after(pulse_start(brightness_cap, step), n).step == step,
        pulse_after(pulse_start(brightness_cap, step), n).brightness_cap == brightness_cap,
    decreases n,
{
    if n > 0 {
        lemma_pulse_counter_bounded(brightness_cap, step, (n - 1) as nat);
        lemma_pulse_stays_on_grid(pulse_after(pulse_start(brightness_cap, step), (n - 1) as nat));
    }
}

/// With step 1 and a cap of at least 2 the counter after `n` ticks is the
/// triangle wave: 1, 2, ..., cap, cap - 1, ..., 1, 2, ... .  While the
/// counter is strictly between 1 and the cap the generator also remembers
/// which way it is going.
pub proof fn lemma_pulse_is_triangle_wave(brightness_cap: u8, n: nat)
    requires
        brightness_cap >= 2,
    ensures
        pulse_after(pulse_start(brightness_cap, 1), n).counter == triangle_wave(
            brightness_cap as int,
            n,
        ),
        pulse_after(pulse_start(brightness_cap, 1), n).step == 1,
        pulse_after(pulse_start(brightness_cap, 1), n).brightness_cap == brightness_cap,
        0 <= triangle_wave(brightness_cap as int, n) <= brightness_cap,
        n >= 1 ==> 1 <= triangle_wave(brightness_cap as int, n),
        1 < triangle_wave(brightness_cap as int, n) < brightness_cap ==> (pulse_after(
            pulse_start(brightness_cap, 1),
            n,
        ).descending <==> (n - 1) % (2 * (brightness_cap - 1)) >= brightness_cap as int),
    decreases n,
{
    let cap = brightness_cap as int;
    let period = 2 * (cap - 1);
    if n == 1 {
        lemma_pulse_is_triangle_wave(brightness_cap, 0);
        assert(0int % period == 0);
    } else if n > 1 {
        let m = (n - 1) as nat;
        lemma_pulse_is_triangle_wave(brightness_cap, m);
        lemma_mod_successor(m - 1, period);
    }
}

/// The run that starts at counter 0 with step 1 and cap 10 shows
/// 1, 2, ..., 10, 9, ..., 1, 2, ... and never leaves `0 ..= 10`.
pub proof fn lemma_pulse_breathes_between_0_and_10(n: nat)
    ensures
        pulse_after(pulse_start(10, 1), n).counter == triangle_wave(10, n),
        0 <= triangle_wave(10, n) <= 10,
        1 <= n <= 10 ==> triangle_wave(10, n) == n,
        10 <= n <= 19 ==> triangle_wave(10, n) == 20 - n,
        19 <= n <= 28 ==> triangle_wave(10, n) == n - 18,
        triangle_wave(10, n + 18) == if n == 0 { 2 } else { triangle_wave(10, n) },
{
    lemma_pulse_is_triangle_wave(10, n);
    if n >= 1 {
        let now = (n - 1) as int;
        assert(triangle_wave(10, n) == if now % 18 < 10 {
            now % 18 + 1
        } else {
            19 - now % 18
        });
    }
    let later = (n + 17) as int;
    assert(triangle_wave(10, n + 18) == if later % 18 < 10 {
        later % 18 + 1
    } else {
        19 - later % 18
    });
}

/// Uniform breathing effect: the whole grid carries one gray level that
/// rises and falls between 0 and the brightness cap.
#[allow(non_camel_case_types)]
pub struct nmPulse {
    strip: [Pixel; NUM_PX],
    color: Pixel,
    px_counter: u8,
    descending: bool,
    step_size: u8,
    brightness: u8,
}

impl View for nmPulse {
    type V = PulseState;

    closed spec fn view(&self) -> PulseState {
        PulseState {
            counter: self.px_counter,
            descending: self.descending,
            step: self.step_size,
            brightness_cap: self.brightness,
        }
    }
}

impl nmPulse {
    /// The frame the generator currently holds.
    pub closed spec fn frame(&self) -> Seq<Pixel> {
        self.strip@
    }

    /// The colour the generator was built with: gray at the brightness cap.
    pub closed spec fn base_color(&self) -> Pixel {
        self.color
    }

    /// A generator at rest: counter 0, heading upwards, frame all dark.
    pub fn new(brightness: u8, step_size: u8) -> (pulse: nmPulse)
        ensures
            pulse@ == pulse_start(brightness, step_size),
            pulse.frame() == dark_frame(),
            pulse.base_color() == gray(brightness),
    {
        let pulse = nmPulse {
            strip: [Pixel { r: 0, g: 0, b: 0 }; NUM_PX],
            color: Pixel { r: brightness, g: brightness, b: brightness },
            px_counter: 0,
            descending: false,
            step_size,
            brightness,
        };
        pulse
    }

    /// Paints the whole frame with `color`; the state is left alone.
    pub fn set(&mut self, color: Pixel)
        ensures
            final(self).frame() == uniform_frame(color),
            final(self)@ == old(self)@,
            final(self).base_color() == old(self).base_color(),
    {
        fill(&mut self.strip, color);
    }

    /// A copy of the current frame, in linear pixel order.
    pub fn to_list(&self) -> (list: [Pixel; NUM_PX])
        ensures
            list@ == self.frame(),
    {
        self.strip
    }

    /// The current state.
    pub fn state(&self) -> (s: PulseState)
        ensures
            s == self@,
    {
        PulseState {
            counter: self.px_counter,
            descending: self.descending,
            step: self.step_size,
            brightness_cap: self.brightness,
        }
    }

    /// One tick: moves the counter as `pulse_advance` says and repaints the
    /// whole frame in the gray of the new counter.
    pub fn next(&mut self)
        ensures
            final(self)@ == pulse_advance(old(self)@),
            final(self).frame() == uniform_frame(gray(final(self)@.counter)),
            final(self).base_color() == old(self).base_color(),
    {
        if self.px_counter <= 1 {
            self.descending = false;
        } else if self.px_counter >= self.brightness {
            self.descending = true;
        }
        if self.descending {
            self.px_counter = self.px_counter.saturating_sub(self.step_size);
        } else {
            self.px_counter = self.px_counter.saturating_add(self.step_size);
        }
        let level: u8 = self.px_counter;
        self.set(Pixel { r: level, g: level, b: level });
    }
}

/// The frame that a generator built with these parameters holds after `n`
/// ticks.
pub open spec fn pulse_frame_after(brightness_cap: u8, step: u8, n: nat) -> Seq<Pixel> {
    if n == 0 {
        dark_frame()
    } else {
        uniform_frame(gray(pulse_after(pulse_start(brightness_cap, step), n).counter))
    }
}

/// `history` records one generator from its construction on: its first
/// entry is as `new` leaves a generator, and each later entry is as `next`
/// leaves the entry before it.
pub open spec fn pulse_history(history: Seq<nmPulse>, brightness_cap: u8, step: u8) -> bool {
    &&& history.len() > 0
    &&& history[0]@ == pulse_start(brightness_cap, step)
    &&& history[0].frame() == dark_frame()
    &&& history[0].base_color() == gray(brightness_cap)
    &&& forall|i: int|
        1 <= i < history.len() ==> {
            &&& (#[trigger] history[i])@ == pulse_advance(history[i - 1]@)
            &&& history[i].frame() == uniform_frame(gray(history[i]@.counter))
            &&& history[i].base_color() == history[i - 1].base_color()
        }
}

/// Construction hides nothing: what a generator holds after `n` ticks is
/// given by its parameters and `n` alone, so two generators built alike and
/// ticked alike hold the same state and the same frame at every tick.
pub proof fn lemma_pulse_replay(
    a: Seq<nmPulse>,
    b: Seq<nmPulse>,
    brightness_cap: u8,
    step: u8,
    n: int,
)
    requires
        pulse_history(a, brightness_cap, step),
        pulse_history(b, brightness_cap, step),
        0 <= n < a.len(),
        n < b.len(),
    ensures
        a[n]@ == pulse_after(pulse_start(brightness_cap, step), n as nat),
        a[n].frame() == pulse_frame_after(brightness_cap, step, n as nat),
        a[n].base_color() == gray(brightness_cap),
        a[n]@ == b[n]@,
        a[n].frame() == b[n].frame(),
        a[n].base_color() == b[n].base_color(),
    decreases n,
{
    if n > 0 {
        lemma_pulse_replay(a, b, brightness_cap, step, n - 1);
    }
}

} // verus!
