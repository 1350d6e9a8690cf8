use vstd::prelude::*;
use crate::animations::{Pixel, NUM_PX, WIDTH, HEIGHT, dark, dark_frame, index_of, fill};

verus! {

/// Number of dimmer lines that trail the lead line.
pub const NUM_SHADOWS: usize = 7;

/// What the wave generator remembers between ticks.
pub struct WaveState {
    /// Secondary coordinate of the brightest line.
    pub lead: usize,
    /// Secondary coordinates of the trailing lines, nearest first.
    pub shadows: Seq<usize>,
}

/// The lead lies on the grid and shadow `i` trails it by `i + 1` lines,
/// counted modulo 8.
pub open spec fn wave_wf(s: WaveState) -> bool {
    &&& s.lead < 8
    &&& s.shadows.len() == 7
    &&& forall|i: int| 0 <= i < 7 ==> #[trigger] s.shadows[i] == (s.lead + 7 - i) % 8
}

/// State of a generator that has not ticked yet: the lead on line 7, the
/// shadows on lines 6 down to 0.
pub open spec fn wave_start() -> WaveState {
    WaveState { lead: 7, shadows: Seq::new(7, |i: int| (6 - i) as usize) }
}

/// One tick of the wave generator: the lead and every shadow move on by one
/// line, modulo 8.
pub open spec fn wave_advance(s: WaveState) -> WaveState {
    WaveState {
        lead: ((s.lead + 1) % 8) as usize,
        shadows: Seq::new(7, |i: int| ((s.shadows[i] + 1) % 8) as usize),
    }
}

/// State reached from `s` after `n` ticks.
pub open spec fn wave_after(s: WaveState, n: nat) -> WaveState
    decreases n,
{
    if n == 0 {
        s
    } else {
        wave_advance(wave_after(s, (n - 1) as nat))
    }
}

/// One channel of a shadow line: `channel - channel / 7 * tier + 1`, the
/// quotient taken first and rounded down.
pub open spec fn dim_channel(channel: u8, tier: int) -> int {
    channel - (channel / 7) * tier + 1
}

/// The colour of the shadow line of the given tier, 1 for the line next to
/// the lead and 7 for the farthest.
pub open spec fn dimmed(color: Pixel, tier: int) -> Pixel {
    Pixel {
        r: dim_channel(color.r, tier) as u8,
        g: dim_channel(color.g, tier) as u8,
        b: dim_channel(color.b, tier) as u8,
    }
}

/// How far line `line` lies behind the lead, modulo 8: 0 for the lead line
/// itself and `i + 1` for the line of shadow `i`.
pub open spec fn wave_tier(lead: int, line: int) -> int {
    (lead + 8 - line) % 8
}

/// The colour that the wave gives to the pixels of line `line`.
pub open spec fn wave_line_color(color: Pixel, lead: int, line: int) -> Pixel {
    if wave_tier(lead, line) == 0 {
        color
    } else {
        dimmed(color, wave_tier(lead, line))
    }
}

/// The frame of a wave whose lead stands on line `lead`.
pub open spec fn wave_frame(color: Pixel, lead: int) -> Seq<Pixel> {
    Seq::new(64, |j: int| wave_line_color(color, lead, j / 8))
}

/// `frame` with the eight pixels of line `line` repainted in `color`.
pub open spec fn paint_line(frame: Seq<Pixel>, line: int, color: Pixel) -> Seq<Pixel> {
    Seq::new(
        64,
        |j: int|
            if j / 8 == line {
                color
            } else {
                frame[j]
            },
    )
}

/// For tiers 1 to 7 the dimming formula stays within `1 ..= 255`: what is
/// taken off never exceeds the channel, and adding 1 never passes 255.
pub proof fn lemma_dim_in_range(channel: u8, tier: int)
    requires
        1 <= tier <= 7,
    ensures
        0 <= (channel / 7) * tier <= channel,
        1 <= dim_channel(channel, tier) <= 255,
{
    let q = (channel / 7) as int;
    assert(q * tier <= q * 7) by (nonlinear_arith)
        requires
            0 <= q,
            tier <= 7,
    ;
    assert(0 <= q * tier) by (nonlinear_arith)
        requires
            0 <= q,
            1 <= tier,
    ;
    assert(q <= q * tier) by (nonlinear_arith)
        requires
            0 <= q,
            1 <= tier,
    ;
}

/// A channel of at least 7 grows strictly dimmer from each tier to the next
/// and is never brighter in a shadow than in the lead; from 14 on the first
/// shadow is strictly dimmer than the lead too.
pub proof fn lemma_dim_strictly_decreasing(channel: u8, tier: int)
    requires
        channel >= 7,
        1 <= tier < 7,
    ensures
        dim_channel(channel, tier + 1) < dim_channel(channel, tier),
        dim_channel(channel, 1) <= channel,
        channel >= 14 ==> dim_channel(channel, 1) < channel,
{
    let q = (channel / 7) as int;
    assert(q * (tier + 1) == q * tier + q) by (nonlinear_arith);
    assert(q * 1 == q) by (nonlinear_arith);
}

/// A channel below 7 is the same in all shadows, one above the lead.
pub proof fn lemma_dim_of_faint_channel(channel: u8, tier: int)
    requires
        channel < 7,
    ensures
        dim_channel(channel, tier) == channel + 1,
{
    assert(0 * tier == 0) by (nonlinear_arith);
}

/// A tick keeps the shadows trailing the lead.
pub proof fn lemma_wave_advance_keeps_wf(s: WaveState)
    requires
        wave_wf(s),
    ensures
        wave_wf(wave_advance(s)),
{
}

/// Every state that a generator reaches is well formed, and after `n` ticks
/// the lead stands on line `(7 + n) % 8`.
pub proof fn lemma_wave_after(n: nat)
    ensures
        wave_wf(wave_after(wave_start(), n)),
        wave_after(wave_start(), n).lead == (7 + n) % 8,
    decreases n,
{
    if n > 0 {
        lemma_wave_after((n - 1) as nat);
    }
}

/// The lead and the seven shadows stand on eight different lines.
pub proof fn lemma_wave_lines_distinct(s: WaveState, i: int, j: int)
    requires
        wave_wf(s),
        0 <= i < 7,
        0 <= j < 7,
    ensures
        s.shadows[i] < 8,
        s.shadows[i] != s.lead,
        i != j ==> s.shadows[i] != s.shadows[j],
        wave_tier(s.lead as int, s.shadows[i] as int) == i + 1,
{
}

/// A frame of the wave is made of eight full lines: the pixels of the lead
/// line carry the base colour, and every other pixel lies on the line of
/// exactly one shadow and carries the colour of that shadow's tier.
pub proof fn lemma_wave_frame_lines(color: Pixel, s: WaveState, primary: int, secondary: int)
    requires
        wave_wf(s),
        0 <= primary < 8,
        0 <= secondary < 8,
    ensures
        0 <= index_of(primary, secondary) < 64,
        secondary == s.lead ==> wave_frame(color, s.lead as int)[index_of(primary, secondary)]
            == color,
        secondary != s.lead ==> {
            let i = wave_tier(s.lead as int, secondary) - 1;
            &&& 0 <= i < 7
            &&& s.shadows[i] == secondary
            &&& wave_frame(color, s.lead as int)[index_of(primary, secondary)] == dimmed(
                color,
                i + 1,
            )
        },
{
}

/// Only the lead line carries the base colour, unless all three channels
/// of that colour lie in `7 ..= 13`, where the first shadow takes off exactly
/// the 1 that the formula adds.
pub proof fn lemma_wave_only_lead_is_full(
    color: Pixel,
    s: WaveState,
    primary: int,
    secondary: int,
)
    requires
        wave_wf(s),
        0 <= primary < 8,
        0 <= secondary < 8,
        secondary != s.lead,
        !(7 <= color.r <= 13 && 7 <= color.g <= 13 && 7 <= color.b <= 13),
    ensures
        wave_frame(color, s.lead as int)[index_of(primary, secondary)] != color,
{
    let tier = wave_tier(s.lead as int, secondary);
    lemma_dim_in_range(color.r, tier);
    lemma_dim_in_range(color.g, tier);
    lemma_dim_in_range(color.b, tier);
    if !(7 <= color.r <= 13) {
        lemma_dim_differs(color.r, tier);
    } else if !(7 <= color.g <= 13) {
        lemma_dim_differs(color.g, tier);
    } else {
        lemma_dim_differs(color.b, tier);
    }
}

proof fn lemma_dim_differs(channel: u8, tier: int)
    requires
        1 <= tier <= 7,
        !(7 <= channel <= 13),
    ensures
        dim_channel(channel, tier) != channel,
{
    let q = (channel / 7) as int;
    if q == 0 {
        assert(q * tier == 0) by (nonlinear_arith)
            requires
                q == 0,
        ;
    } else {
        assert(q * tier >= 2) by (nonlinear_arith)
            requires
                q >= 2,
                tier >= 1,
        ;
    }
}

/// The colour of the shadow line of tier `tier`.
///
/// The subtraction and the addition saturate; for the tiers 1 to 7 neither
/// ever does, so the result is the formula of `dimmed` exactly.
pub fn dim(color: Pixel, tier: u8) -> (shade: Pixel)
    requires
        1 <= tier <= 7,
    ensures
        shade == dimmed(color, tier as int),
{
    proof {
        lemma_dim_in_range(color.r, tier as int);
        lemma_dim_in_range(color.g, tier as int);
        lemma_dim_in_range(color.b, tier as int);
    }
    Pixel {
        r: color.r.saturating_sub(color.r / 7 * tier).saturating_add(1),
        g: color.g.saturating_sub(color.g / 7 * tier).saturating_add(1),
        b: color.b.saturating_sub(color.b / 7 * tier).saturating_add(1),
    }
}

/// One bright line that sweeps across the secondary axis, followed by seven
/// lines that grow dimmer with their distance from it.
#[allow(non_camel_case_types)]
pub struct nmWave {
    strip: [Pixel; NUM_PX],
    color: Pixel,
    row: usize,
    shadows: [usize; NUM_SHADOWS],
}

impl View for nmWave {
    type V = WaveState;

    closed spec fn view(&self) -> WaveState {
        WaveState { lead: self.row, shadows: self.shadows@ }
    }
}

impl nmWave {
    /// The frame the generator currently holds.
    pub closed spec fn frame(&self) -> Seq<Pixel> {
        self.strip@
    }

    /// The colour of the lead line.
    pub closed spec fn base_color(&self) -> Pixel {
        self.color
    }

    /// The shadows trail the lead.
    pub open spec fn wf(&self) -> bool {
        wave_wf(self@)
    }

    /// A generator with the lead on line 7, the shadows behind it and an
    /// all-dark frame.
    pub fn new(color: Pixel) -> (wave: nmWave)
        ensures
            wave.wf(),
            wave@ == wave_start(),
            wave.frame() == dark_frame(),
            wave.base_color() == color,
    {
        let mut shadows: [usize; NUM_SHADOWS] = [0; NUM_SHADOWS];
        let mut i: usize = 0;
        while i < NUM_SHADOWS
            invariant
                i <= NUM_SHADOWS,
                forall|k: int| 0 <= k < i ==> shadows@[k] == 6 - k,
            decreases NUM_SHADOWS - i,
        {
            shadows[i] = NUM_SHADOWS - 1 - i;
            i += 1;
        }
        let wave = nmWave {
            strip: [Pixel { r: 0, g: 0, b: 0 }; NUM_PX],
            color,
            row: NUM_SHADOWS,
            shadows,
        };
        assert(wave@.shadows =~= wave_start().shadows);
        wave
    }

    /// Paints the eight pixels of line `row` with `color`.  A `row` beyond
    /// the grid names no line, and nothing is painted.
    pub fn set(&mut self, row: usize, color: Pixel)
        ensures
            final(self).frame() == paint_line(old(self).frame(), row as int, color),
            final(self)@ == old(self)@,
            final(self).base_color() == old(self).base_color(),
    {
        if row < HEIGHT {
            let mut p: usize = 0;
            while p < WIDTH
                invariant
                    p <= WIDTH,
                    row < 8,
                    self.color == old(self).color,
                    self.row == old(self).row,
                    self.shadows == old(self).shadows,
                    forall|j: int|
                        0 <= j < 64 ==> self.strip@[j] == if row * 8 <= j < row * 8 + p {
                            color
                        } else {
                            old(self).strip@[j]
                        },
                decreases WIDTH - p,
            {
                self.strip[row * WIDTH + p] = color;
                p += 1;
            }
        }
    }

    /// Makes every pixel dark.
    pub fn clear(&mut self)
        ensures
            final(self).frame() == dark_frame(),
            final(self)@ == old(self)@,
            final(self).base_color() == old(self).base_color(),
    {
        fill(&mut self.strip, Pixel { r: 0, g: 0, b: 0 });
    }

    /// A copy of the current frame, in linear pixel order.
    pub fn to_list(&self) -> (list: [Pixel; NUM_PX])
        ensures
            list@ == self.frame(),
    {
        self.strip
    }

    /// Secondary coordinate of the lead line.
    pub fn lead(&self) -> (line: usize)
        ensures
            line == self@.lead,
    {
        self.row
    }

    /// Secondary coordinates of the seven shadow lines, nearest first.
    pub fn shadows(&self) -> (lines: [usize; NUM_SHADOWS])
        ensures
            lines@ == self@.shadows,
    {
        self.shadows
    }

    /// One tick: the lead and the shadows move on by one line, and the frame
    /// is repainted: the lead line in the base colour, the line of shadow `i`
    /// in the colour of tier `i + 1`.
    pub fn next(&mut self)
        requires
            old(self).wf(),
        ensures
            final(self).wf(),
            final(self)@ == wave_advance(old(self)@),
            final(self).frame() == wave_frame(old(self).base_color(), final(self)@.lead as int),
            final(self).base_color() == old(self).base_color(),
    {
        self.row = (self.row + 1) % WIDTH;
        self.clear();
        let color = self.color;
        let lead = self.row;
        self.set(lead, color);
        let mut i: usize = 0;
        while i < NUM_SHADOWS
            invariant
                i <= NUM_SHADOWS,
                wave_wf(old(self)@),
                color == old(self).color,
                self.color == color,
                lead == (old(self).row + 1) % 8,
                self.row == lead,
                forall|k: int|
                    0 <= k < 7 ==> #[trigger] self.shadows@[k] == if k < i {
                        (old(self).shadows@[k] + 1) % 8
                    } else {
                        old(self).shadows@[k] as int
                    },
                forall|j: int|
                    0 <= j < 64 ==> #[trigger] self.strip@[j] == if wave_tier(lead as int, j / 8)
                        <= i {
                        wave_line_color(color, lead as int, j / 8)
                    } else {
                        dark()
                    },
            decreases NUM_SHADOWS - i,
        {
            assert(old(self)@.shadows[i as int] == (old(self).row + 7 - i) % 8);
            self.shadows[i] = (self.shadows[i] + 1) % WIDTH;
            let line = self.shadows[i];
            assert(wave_tier(lead as int, line as int) == i + 1);
            let shade = dim(color, (i + 1) as u8);
            self.set(line, shade);
            i += 1;
        }
        assert(self@.shadows =~= wave_advance(old(self)@).shadows);
    }
}

/// The frame that a generator of this colour holds after `n` ticks.
pub open spec fn wave_frame_after(color: Pixel, n: nat) -> Seq<Pixel> {
    if n == 0 {
        dark_frame()
    } else {
        wave_frame(color, wave_after(wave_start(), n).lead as int)
    }
}

/// `history` records one generator from its construction on: its first
/// entry is as `new` leaves a generator, and each later entry is as `next`
/// leaves the entry before it.
pub open spec fn wave_history(history: Seq<nmWave>, color: Pixel) -> bool {
    &&& history.len() > 0
    &&& history[0]@ == wave_start()
    &&& history[0].frame() == dark_frame()
    &&& history[0].base_color() == color
    &&& forall|i: int|
        1 <= i < history.len() ==> {
            &&& (#[trigger] history[i])@ == wave_advance(history[i - 1]@)
            &&& history[i].frame() == wave_frame(
                history[i - 1].base_color(),
                history[i]@.lead as int,
            )
            &&& history[i].base_color() == history[i - 1].base_color()
        }
}

/// Construction hides nothing: what a generator holds after `n` ticks is
/// given by its colour and `n` alone, so two generators built alike and
/// ticked alike hold the same state and the same frame at every tick.
pub proof fn lemma_wave_replay(a: Seq<nmWave>, b: Seq<nmWave>, color: Pixel, n: int)
    requires
        wave_history(a, color),
        wave_history(b, color),
        0 <= n < a.len(),
        n < b.len(),
    ensures
        a[n].wf(),
        a[n]@ == wave_after(wave_start(), n as nat),
        a[n].frame() == wave_frame_after(color, n as nat),
        a[n].base_color() == color,
        a[n]@ == b[n]@,
        a[n].frame() == b[n].frame(),
        a[n].base_color() == b[n].base_color(),
    decreases n,
{
    lemma_wave_after(n as nat);
    if n > 0 {
        lemma_wave_replay(a, b, color, n - 1);
    }
}

} // verus!
