//! Rendered images and their encodings.

use vstd::prelude::*;
use crate::color::Color;
use crate::image::pixel::FPixel;

pub mod pixel;
pub mod ppm;

verus! {

/// A rendered image: `width * height` pixels in linear light, row by row
/// from the top.
#[derive(Debug)]
pub struct Image {
    pub data: Vec<FPixel>,
    pub width: u32,
    pub height: u32,
}

/// The pixels that hold the given colours, one for one.
pub open spec fn pixels_of(colors: Seq<Color>) -> Seq<FPixel> {
    Seq::new(colors.len(), |k: int| colors[k].spec_to_fpixel())
}

impl Image {
    /// Whether the image holds exactly the pixels of its size.
    pub open spec fn wf(&self) -> bool {
        self.data@.len() == self.width * self.height
    }

    /// The image of the given size whose pixels are the given colours. There
    /// must be as many colours as the size asks for.
    pub fn new(width: u32, height: u32, data: Vec<Color>) -> (img: Image)
        requires
            width * height == data@.len(),
        ensures
            img.width == width,
            img.height == height,
            img.data@ == pixels_of(data@),
            img.wf(),
    {
        let mut pixels: Vec<FPixel> = Vec::new();
        let n = data.len();
        let mut k: usize = 0;
        while k < n
            invariant
                k <= n,
                n == data@.len(),
                pixels@ == pixels_of(data@.take(k as int)),
            decreases n - k,
        {
            pixels.push(data[k].to_fpixel());
            k += 1;
            assert(pixels@ == pixels_of(data@.take(k as int)));
        }
        assert(data@.take(n as int) == data@);
        Image { data: pixels, width, height }
    }
}

} // verus!
