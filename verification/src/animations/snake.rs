use vstd::prelude::*;
use crate::animations::{Pixel, NUM_PX, WIDTH, dark, dark_frame, index_of};

verus! {

/// What the snake generator remembers between ticks.
#[derive(Clone, Copy, Debug, PartialEq, Eq, Structural)]
pub struct SnakeState {
    /// Position of the lit pixel along the axis on which it bounces.
    pub primary: usize,
    /// Lane of the lit pixel: the coordinate along which it drifts.
    pub secondary: usize,
    /// Direction of travel along the primary axis.
    pub ascending: bool,
}

/// Both coordinates lie on the grid.
pub open spec fn snake_wf(s: SnakeState) -> bool {
    s.primary < 8 && s.secondary < 8
}

/// State of a generator that has not ticked yet: corner `(0, 0)`, ascending.
pub open spec fn snake_start() -> SnakeState {
    SnakeState { primary: 0, secondary: 0, ascending: true }
}

/// The pixel stands at the end of its lane and is heading off the grid.
pub open spec fn snake_at_turn(s: SnakeState) -> bool {
    if s.ascending {
        s.primary == 7
    } else {
        s.primary == 0
    }
}

/// One tick of the snake generator.
///
/// Inside a lane the pixel moves one step along the primary axis.  At the
/// end of a lane it turns instead: the direction flips and the pixel moves to
/// the next lane (modulo 8) at the same primary coordinate.
pub open spec fn snake_advance(s: SnakeState) -> SnakeState {
    if snake_at_turn(s) {
        SnakeState {
            primary: s.primary,
            secondary: ((s.secondary + 1) % 8) as usize,
            ascending: !s.ascending,
        }
    } else if s.ascending {
        SnakeState { primary: (s.primary + 1) as usize, secondary: s.secondary, ascending: true }
    } else {
        SnakeState { primary: (s.primary - 1) as usize, secondary: s.secondary, ascending: false }
    }
}

/// State reached from `s` after `n` ticks.
pub open spec fn snake_after(s: SnakeState, n: nat) -> SnakeState
    decreases n,
{
    if n == 0 {
        s
    } else {
        snake_advance(snake_after(s, (n - 1) as nat))
    }
}

/// The frame with `color` at the pixel of `s` and every other pixel dark.
pub open spec fn snake_frame(s: SnakeState, color: Pixel) -> Seq<Pixel> {
    Seq::new(
        64,
        |j: int|
            if j == index_of(s.primary as int, s.secondary as int) {
                color
            } else {
                dark()
            },
    )
}

/// Where a generator stands `n` ticks after its construction: lane
/// `n / 8` (modulo 8), walked upwards in even lanes and downwards in odd
/// ones.
pub open spec fn snake_path(n: nat) -> SnakeState {
    let k = n % 64;
    let lane = k / 8;
    let along = k % 8;
    if lane % 2 == 0 {
        SnakeState { primary: along as usize, secondary: lane as usize, ascending: true }
    } else {
        SnakeState { primary: (7 - along) as usize, secondary: lane as usize, ascending: false }
    }
}

/// The tick, among the first 64, at which the pixel `(primary, secondary)` is lit.
pub open spec fn snake_tick_of(primary: int, secondary: int) -> nat {
    let along = if secondary % 2 == 0 {
        primary
    } else {
        7 - primary
    };
    let k = secondary * 8 + along;
    if k == 0 {
        64
    } else {
        k as nat
    }
}

/// A tick keeps the pixel on the grid.
pub proof fn lemma_snake_stays_on_grid(s: SnakeState)
    requires
        snake_wf(s),
    ensures
        snake_wf(snake_advance(s)),
{
}

proof fn lemma_path_step(m: nat)
    ensures
        snake_wf(snake_path(m)),
        snake_advance(snake_path(m)) == snake_path(m + 1),
{
    let before = (m % 64) as int;
    let after = ((m + 1) % 64) as int;
    assert(after == if before == 63 { 0 } else { before + 1 });
}

proof fn lemma_path_period(n: nat)
    ensures
        snake_path(n + 64) == snake_path(n),
{
    assert((n + 64) % 64 == n % 64);
}

proof fn lemma_path_of_lane(n: nat, lane: int, along: int)
    requires
        0 <= lane < 8,
        0 <= along < 8,
        n % 64 == 8 * lane + along,
    ensures
        snake_path(n) == if lane % 2 == 0 {
            SnakeState { primary: along as usize, secondary: lane as usize, ascending: true }
        } else {
            SnakeState { primary: (7 - along) as usize, secondary: lane as usize, ascending: false }
        },
{
    let k = (n % 64) as int;
    assert(k / 8 == lane && k % 8 == along);
}

/// The generator follows `snake_path`: after 7 ticks it stands at primary 7
/// in lane 0, the eighth tick turns it downwards into lane 1, and after 64
/// ticks it is back at the corner, ascending.
pub proof fn lemma_snake_follows_path(n: nat)
    ensures
        snake_after(snake_start(), n) == snake_path(n),
        snake_wf(snake_path(n)),
        snake_path(n + 64) == snake_path(n),
    decreases n,
{
    lemma_path_period(n);
    if n > 0 {
        let m = (n - 1) as nat;
        lemma_snake_follows_path(m);
        lemma_path_step(m);
    }
}

/// Position after 7 and after 8 ticks.
pub proof fn lemma_snake_first_turn()
    ensures
        snake_after(snake_start(), 7) == (SnakeState { primary: 7, secondary: 0, ascending: true }),
        snake_after(snake_start(), 8) == (SnakeState {
            primary: 7,
            secondary: 1,
            ascending: false,
        }),
{
    lemma_snake_follows_path(7);
}

/// Every pixel of the grid is lit at one of the first 64 ticks.
pub proof fn lemma_snake_reaches_every_cell(primary: int, secondary: int)
    requires
        0 <= primary < 8,
        0 <= secondary < 8,
    ensures
        1 <= snake_tick_of(primary, secondary) <= 64,
        snake_after(snake_start(), snake_tick_of(primary, secondary)).primary == primary,
        snake_after(snake_start(), snake_tick_of(primary, secondary)).secondary == secondary,
{
    let tick = snake_tick_of(primary, secondary);
    lemma_snake_follows_path(tick);
    if tick == 64 {
        lemma_path_of_lane(tick, 0, 0);
    } else if secondary % 2 == 0 {
        lemma_path_of_lane(tick, secondary, primary);
    } else {
        lemma_path_of_lane(tick, secondary, 7 - primary);
    }
}

/// No pixel is lit twice within the first 64 ticks: the tick determines the
/// pixel and the pixel determines the tick.
pub proof fn lemma_snake_visits_once(i: nat, j: nat)
    requires
        1 <= i <= 64,
        1 <= j <= 64,
        snake_after(snake_start(), i).primary == snake_after(snake_start(), j).primary,
        snake_after(snake_start(), i).secondary == snake_after(snake_start(), j).secondary,
    ensures
        i == j,
{
    lemma_snake_follows_path(i);
    lemma_snake_follows_path(j);
}

/// A frame of the snake shows one pixel in `color` and 63 dark ones.
pub proof fn lemma_snake_frame_one_lit(s: SnakeState, color: Pixel, j: int)
    requires
        snake_wf(s),
        0 <= j < 64,
    ensures
        0 <= index_of(s.primary as int, s.secondary as int) < 64,
        snake_frame(s, color).len() == 64,
        snake_frame(s, color)[j] == if j == index_of(s.primary as int, s.secondary as int) {
            color
        } else {
            dark()
        },
{
}

/// A single lit pixel that bounces along the primary axis and moves on by one
/// lane whenever it turns.
#[allow(non_camel_case_types)]
pub struct nmSnake {
    strip: [Pixel; NUM_PX],
    color: Pixel,
    delta: bool,
    row: usize,
    col: usize,
}

impl View for nmSnake {
    type V = SnakeState;

    closed spec fn view(&self) -> SnakeState {
        SnakeState { primary: self.row, secondary: self.col, ascending: self.delta }
    }
}

impl nmSnake {
    /// The frame the generator currently holds.
    pub closed spec fn frame(&self) -> Seq<Pixel> {
        self.strip@
    }

    /// The colour of the lit pixel.
    pub closed spec fn base_color(&self) -> Pixel {
        self.color
    }

    /// The lit pixel lies on the grid.
    pub open spec fn wf(&self) -> bool {
        snake_wf(self@)
    }

    /// A generator at the corner `(0, 0)`, ascending, with an all-dark frame.
    pub fn new(color: Pixel) -> (snake: nmSnake)
        ensures
            snake.wf(),
            snake@ == snake_start(),
            snake.frame() == dark_frame(),
            snake.base_color() == color,
    {
        let snake = nmSnake {
            strip: [Pixel { r: 0, g: 0, b: 0 }; NUM_PX],
            color,
            delta: true,
            row: 0,
            col: 0,
        };
        snake
    }

    /// Repaints the frame for the current position: the pixel at
    /// `(primary, secondary)` in the base colour, every other pixel dark.
    pub fn set(&mut self)
        requires
            old(self).wf(),
        ensures
            final(self).frame() == snake_frame(old(self)@, old(self).base_color()),
            final(self)@ == old(self)@,
            final(self).base_color() == old(self).base_color(),
    {
        let lit: usize = self.col * WIDTH + self.row;
        let color = self.color;
        let mut idx: usize = 0;
        while idx < NUM_PX
            invariant
                idx <= NUM_PX,
                lit == index_of(old(self)@.primary as int, old(self)@.secondary as int),
                color == old(self).color,
                self.color == old(self).color,
                self.delta == old(self).delta,
                self.row == old(self).row,
                self.col == old(self).col,
                forall|j: int|
                    0 <= j < idx ==> self.strip@[j] == if j == lit {
                        color
                    } else {
                        dark()
                    },
            decreases NUM_PX - idx,
        {
            if idx == lit {
                self.strip[idx] = color;
            } else {
                self.strip[idx] = Pixel { r: 0, g: 0, b: 0 };
            }
            idx += 1;
        }
    }

    /// A copy of the current frame, in linear pixel order.
    pub fn to_list(&self) -> (list: [Pixel; NUM_PX])
        ensures
            list@ == self.frame(),
    {
        self.strip
    }

    /// The current state.
    pub fn state(&self) -> (s: SnakeState)
        ensures
            s == self@,
    {
        SnakeState { primary: self.row, secondary: self.col, ascending: self.delta }
    }

    /// One tick: moves the pixel as `snake_advance` says and repaints the
    /// frame with that one pixel lit.
    pub fn next(&mut self)
        requires
            old(self).wf(),
        ensures
            final(self).wf(),
            final(self)@ == snake_advance(old(self)@),
            final(self).frame() == snake_frame(final(self)@, old(self).base_color()),
            final(self).base_color() == old(self).base_color(),
    {
        if self.delta && self.row == WIDTH - 1 {
            self.delta = false;
            self.col = (self.col + 1) % 8;
        } else if !self.delta && self.row == 0 {
            self.delta = true;
            self.col = (self.col + 1) % 8;
        } else if self.delta {
            self.row += 1;
        } else {
            self.row -= 1;
        }
        self.set();
    }
}

/// The frame that a generator of this colour holds after `n` ticks.
pub open spec fn snake_frame_after(color: Pixel, n: nat) -> Seq<Pixel> {
    if n == 0 {
        dark_frame()
    } else {
        snake_frame(snake_after(snake_start(), n), color)
    }
}

/// `history` records one generator from its construction on: its first
/// entry is as `new` leaves a generator, and each later entry is as `next`
/// leaves the entry before it.
pub open spec fn snake_history(history: Seq<nmSnake>, color: Pixel) -> bool {
    &&& history.len() > 0
    &&& history[0]@ == snake_start()
    &&& history[0].frame() == dark_frame()
    &&& history[0].base_color() == color
    &&& forall|i: int|
        1 <= i < history.len() ==> {
            &&& (#[trigger] history[i])@ == snake_advance(history[i - 1]@)
            &&& history[i].frame() == snake_frame(history[i]@, history[i - 1].base_color())
            &&& history[i].base_color() == history[i - 1].base_color()
        }
}

/// Construction hides nothing: what a generator holds after `n` ticks is
/// given by its colour and `n` alone, so two generators built alike and
/// ticked alike hold the same state and the same frame at every tick.
pub proof fn lemma_snake_replay(a: Seq<nmSnake>, b: Seq<nmSnake>, color: Pixel, n: int)
    requires
        snake_history(a, color),
        snake_history(b, color),
        0 <= n < a.len(),
        n < b.len(),
    ensures
        a[n].wf(),
        a[n]@ == snake_after(snake_start(), n as nat),
        a[n].frame() == snake_frame_after(color, n as nat),
        a[n].base_color() == color,
        a[n]@ == b[n]@,
        a[n].frame() == b[n].frame(),
        a[n].base_color() == b[n].base_color(),
    decreases n,
{
    if n > 0 {
        lemma_snake_replay(a, b, color, n - 1);
    }
}

} // verus!
