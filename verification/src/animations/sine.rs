use vstd::prelude::*;
use crate::animations::{Pixel, NUM_PX, WIDTH, dark, dark_frame, index_of, fill};

verus! {

/// Number of samples in one period of the sine table.
pub const SIN_SIZE: usize = 14;

/// What the sine generator remembers between ticks.
pub struct SineState {
    /// One period of the sampled sine, as bar heights.
    pub table: Seq<usize>,
    /// Index of the sample shown in column 0.
    pub offset: usize,
}

/// One period of a sine of amplitude 4 around the level 4, sampled at 14
/// evenly spaced points and rounded to the nearest whole height.
pub open spec fn sine_table() -> Seq<usize> {
    seq![4usize, 6, 7, 8, 8, 7, 6, 4, 2, 1, 0, 0, 1, 2]
}

/// The table is the sampled sine and the offset points into it.
pub open spec fn sine_wf(s: SineState) -> bool {
    s.table == sine_table() && s.offset < 14
}

/// State of a generator that has not ticked yet.
pub open spec fn sine_start() -> SineState {
    SineState { table: sine_table(), offset: 0 }
}

/// One tick of the sine generator: the read offset moves on by one sample,
/// modulo 14.  The table stays as it is.
pub open spec fn sine_advance(s: SineState) -> SineState {
    SineState { table: s.table, offset: ((s.offset + 1) % 14) as usize }
}

/// State reached from `s` after `n` ticks.
pub open spec fn sine_after(s: SineState, n: nat) -> SineState
    decreases n,
{
    if n == 0 {
        s
    } else {
        sine_advance(sine_after(s, (n - 1) as nat))
    }
}

/// Height of the bar in column `primary` when the window starts at `offset`.
pub open spec fn sine_height(offset: int, primary: int) -> int {
    sine_table()[(offset + primary) % 14] as int
}

/// The frame that shows the eight samples from `offset` on as bars: in
/// column `p` the pixels with secondary coordinate below the height are lit.
pub open spec fn sine_frame(color: Pixel, offset: int) -> Seq<Pixel> {
    Seq::new(
        64,
        |j: int|
            if j / 8 < sine_height(offset, j % 8) {
                color
            } else {
                dark()
            },
    )
}

/// `frame` with the pixels `row`, `row + 8`, ..., `row + 8 * height`
/// repainted in `color`, as far as they lie in the frame.
pub open spec fn paint_column(frame: Seq<Pixel>, row: int, height: int, color: Pixel) -> Seq<
    Pixel,
> {
    Seq::new(
        64,
        |j: int|
            if j >= row && (j - row) % 8 == 0 && (j - row) / 8 <= height {
                color
            } else {
                frame[j]
            },
    )
}

/// Shape of the table: every height lies in `0 ..= 8`, and the second half
/// of the period mirrors the first around the level 4.
pub proof fn lemma_sine_table_shape(i: int)
    requires
        0 <= i < 14,
    ensures
        sine_table().len() == 14,
        0 <= sine_table()[i] <= 8,
        sine_table()[i] + sine_table()[(i + 7) % 14] == 8,
{
}

/// The bars of a frame are eight consecutive samples of the table, read
/// from `offset` on and wrapping round after the fourteenth.
pub proof fn lemma_sine_frame_columns(color: Pixel, offset: int, primary: int, secondary: int)
    requires
        0 <= offset < 14,
        0 <= primary < 8,
        0 <= secondary < 8,
    ensures
        0 <= index_of(primary, secondary) < 64,
        0 <= sine_height(offset, primary) <= 8,
        sine_height(offset, primary) == sine_table()[if offset + primary < 14 {
            offset + primary
        } else {
            offset + primary - 14
        }],
        sine_frame(color, offset)[index_of(primary, secondary)] == if secondary < sine_height(
            offset,
            primary,
        ) {
            color
        } else {
            dark()
        },
{
}

/// After `n` ticks the window starts at sample `n % 14`: the animation
/// repeats every 14 ticks.
pub proof fn lemma_sine_after(n: nat)
    ensures
        sine_wf(sine_after(sine_start(), n)),
        sine_after(sine_start(), n).offset == n % 14,
    decreases n,
{
    if n > 0 {
        lemma_sine_after((n - 1) as nat);
    }
}

/// The sampled sine, as the generator stores it.
pub fn sine_samples() -> (table: [usize; SIN_SIZE])
    ensures
        table@ == sine_table(),
{
    let table: [usize; SIN_SIZE] = [4, 6, 7, 8, 8, 7, 6, 4, 2, 1, 0, 0, 1, 2];
    table
}

/// Eight bars whose heights are a window of eight samples that slides over
/// one period of a sine.
#[allow(non_camel_case_types)]
pub struct nmSin {
    strip: [Pixel; NUM_PX],
    color: Pixel,
    sin: [usize; SIN_SIZE],
    offset: usize,
}

impl View for nmSin {
    type V = SineState;

    closed spec fn view(&self) -> SineState {
        SineState { table: self.sin@, offset: self.offset }
    }
}

impl nmSin {
    /// The frame the generator currently holds.
    pub closed spec fn frame(&self) -> Seq<Pixel> {
        self.strip@
    }

    /// The colour of the bars.
    pub closed spec fn base_color(&self) -> Pixel {
        self.color
    }

    /// The table is the sampled sine and the offset points into it.
    pub open spec fn wf(&self) -> bool {
        sine_wf(self@)
    }

    /// A generator with the window at the start of the table and an
    /// all-dark frame.
    pub fn new(color: Pixel) -> (sine: nmSin)
        ensures
            sine.wf(),
            sine@ == sine_start(),
            sine.frame() == dark_frame(),
            sine.base_color() == color,
    {
        let sine = nmSin {
            strip: [Pixel { r: 0, g: 0, b: 0 }; NUM_PX],
            color,
            sin: sine_samples(),
            offset: 0,
        };
        sine
    }

    /// Paints, in the base colour, the pixels `row`, `row + 8`, ... up to
    /// and including `row + 8 * height`, as far as they lie in the frame.
    /// For a `row` below 8 these are the pixels of column `row` with
    /// secondary coordinate `0 ..= height`.
    pub fn set_row_height(&mut self, row: usize, height: usize)
        ensures
            final(self).frame() == paint_column(
                old(self).frame(),
                row as int,
                height as int,
                old(self).base_color(),
            ),
            final(self)@ == old(self)@,
            final(self).base_color() == old(self).base_color(),
    {
        let color = self.color;
        if row < NUM_PX {
            let mut idx: usize = row;
            let mut col: usize = 0;
            while idx < NUM_PX && col <= height
                invariant
                    row < 64,
                    col <= 8,
                    col <= height + 1,
                    idx == row + 8 * col,
                    self.color == old(self).color,
                    color == old(self).color,
                    self.sin == old(self).sin,
                    self.offset == old(self).offset,
                    forall|j: int|
                        0 <= j < 64 ==> #[trigger] self.strip@[j] == if j >= row && (j - row) % 8
                            == 0 && (j - row) / 8 < col {
                            color
                        } else {
                            old(self).strip@[j]
                        },
                decreases NUM_PX + 8 - idx,
            {
                self.strip[idx] = color;
                idx += WIDTH;
                col += 1;
            }
        }
        assert(self.strip@ =~= paint_column(
            old(self).frame(),
            row as int,
            height as int,
            old(self).base_color(),
        ));
    }

    /// Makes every pixel dark.
    pub fn clear(&mut self)
        ensures
            final(self).frame() == dark_frame(),
            final(self)@ == old(self)@,
            final(self).base_color() == old(self).base_color(),
    {
        fill(&mut self.strip, Pixel { r: 0, g: 0, b: 0 });
    }

    /// A copy of the current frame, in linear pixel order.
    pub fn to_list(&self) -> (list: [Pixel; NUM_PX])
        ensures
            list@ == self.frame(),
    {
        self.strip
    }

    /// The table of samples.
    pub fn table(&self) -> (table: [usize; SIN_SIZE])
        ensures
            table@ == self@.table,
    {
        self.sin
    }

    /// Index of the sample that the next frame shows in column 0.
    pub fn offset(&self) -> (offset: usize)
        ensures
            offset == self@.offset,
    {
        self.offset
    }

    /// One tick: paints the window that starts at the current offset, then
    /// moves the offset on by one sample.
    pub fn next(&mut self)
        requires
            old(self).wf(),
        ensures
            final(self).wf(),
            final(self)@ == sine_advance(old(self)@),
            final(self).frame() == sine_frame(old(self).base_color(), old(self)@.offset as int),
            final(self).base_color() == old(self).base_color(),
    {
        self.clear();
        let ghost color = self.color;
        let ghost offset = self.offset as int;
        let mut i: usize = 0;
        while i < WIDTH
            invariant
                i <= WIDTH,
                sine_wf(old(self)@),
                self.sin == old(self).sin,
                self.offset == old(self).offset,
                self.color == old(self).color,
                color == old(self).color,
                offset == old(self).offset,
                forall|j: int|
                    0 <= j < 64 ==> #[trigger] self.strip@[j] == if j % 8 < i && j / 8
                        < sine_height(offset, j % 8) {
                        color
                    } else {
                        dark()
                    },
            decreases WIDTH - i,
        {
            let height: usize = self.sin[(self.offset + i) % SIN_SIZE];
            if height != 0 {
                self.set_row_height(i, height - 1);
            }
            i += 1;
        }
        self.offset = (self.offset + 1) % SIN_SIZE;
    }
}

/// The frame that a generator of this colour holds after `n` ticks: the
/// window that starts at sample `(n - 1) % 14`.
pub open spec fn sine_frame_after(color: Pixel, n: nat) -> Seq<Pixel> {
    if n == 0 {
        dark_frame()
    } else {
        sine_frame(color, (n - 1) % 14)
    }
}

/// `history` records one generator from its construction on: its first
/// entry is as `new` leaves a generator, and each later entry is as `next`
/// leaves the entry before it.
pub open spec fn sine_history(history: Seq<nmSin>, color: Pixel) -> bool {
    &&& history.len() > 0
    &&& history[0]@ == sine_start()
    &&& history[0].frame() == dark_frame()
    &&& history[0].base_color() == color
    &&& forall|i: int|
        1 <= i < history.len() ==> {
            &&& (#[trigger] history[i])@ == sine_advance(history[i - 1]@)
            &&& history[i].frame() == sine_frame(
                history[i - 1].base_color(),
                history[i - 1]@.offset as int,
            )
            &&& history[i].base_color() == history[i - 1].base_color()
        }
}

/// Construction hides nothing: what a generator holds after `n` ticks is
/// given by its colour and `n` alone, so two generators built alike and
/// ticked alike hold the same state and the same frame at every tick.
pub proof fn lemma_sine_replay(a: Seq<nmSin>, b: Seq<nmSin>, color: Pixel, n: int)
    requires
        sine_history(a, color),
        sine_history(b, color),
        0 <= n < a.len(),
        n < b.len(),
    ensures
        a[n].wf(),
        a[n]@ == sine_after(sine_start(), n as nat),
        a[n].frame() == sine_frame_after(color, n as nat),
        a[n].base_color() == color,
        a[n]@ == b[n]@,
        a[n].frame() == b[n].frame(),
        a[n].base_color() == b[n].base_color(),
    decreases n,
{
    if n > 0 {
        lemma_sine_replay(a, b, color, n - 1);
        lemma_sine_after((n - 1) as nat);
    }
}

} // verus!
