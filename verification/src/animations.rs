use vstd::prelude::*;

pub mod pulse;
pub mod snake;
pub mod sine;
pub mod wave;

verus! {

/// Number of pixels along the primary axis of the grid.
pub const WIDTH: usize = 8;

/// Number of pixels along the secondary axis of the grid.
pub const HEIGHT: usize = 8;

/// Number of pixels in one frame.
pub const NUM_PX: usize = 64;

/// One pixel: three 8-bit colour channels.
#[derive(Clone, Copy, Debug, PartialEq, Eq, Structural)]
pub struct Pixel {
    pub r: u8,
    pub g: u8,
    pub b: u8,
}

/// The pixel with every channel off.
pub open spec fn dark() -> Pixel {
    Pixel { r: 0, g: 0, b: 0 }
}

/// The pixel whose three channels all carry `level`.
pub open spec fn gray(level: u8) -> Pixel {
    Pixel { r: level, g: level, b: level }
}

impl Pixel {
    /// Builds a pixel from its three channels.
    pub fn new(r: u8, g: u8, b: u8) -> (p: Pixel)
        ensures
            p == (Pixel { r, g, b }),
    {
        Pixel { r, g, b }
    }
}

/// Linear position in a frame of the pixel at `(primary, secondary)`.
pub open spec fn index_of(primary: int, secondary: int) -> int {
    secondary * 8 + primary
}

/// The frame in which every pixel is `dark()`.
pub open spec fn dark_frame() -> Seq<Pixel> {
    Seq::new(64, |i: int| dark())
}

/// The frame in which every pixel is `color`.
pub open spec fn uniform_frame(color: Pixel) -> Seq<Pixel> {
    Seq::new(64, |i: int| color)
}

/// A fresh all-dark frame.
pub fn blank() -> (frame: [Pixel; NUM_PX])
    ensures
        frame@ == dark_frame(),
{
    let frame: [Pixel; NUM_PX] = [Pixel { r: 0, g: 0, b: 0 }; NUM_PX];
    frame
}

/// Paints every pixel of `strip` with `color`.
pub fn fill(strip: &mut [Pixel; NUM_PX], color: Pixel)
    ensures
        final(strip)@ == uniform_frame(color),
{
    let mut i: usize = 0;
    while i < NUM_PX
        invariant
            i <= NUM_PX,
            forall|j: int| 0 <= j < i ==> strip@[j] == color,
        decreases NUM_PX - i,
    {
        strip[i] = color;
        i += 1;
    }
}

} // verus!
