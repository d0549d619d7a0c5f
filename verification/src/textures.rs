use vstd::prelude::*;
use crate::color::Color;

verus! {

/// An image to wrap around a surface: `width * height` colours, row 0 first.
#[derive(Debug)]
pub struct Texture {
    pub width: usize,
    pub height: usize,
    pub data: Vec<Color>,
}

impl Texture {
    /// There is exactly one colour for each texel.
    pub open spec fn wf(&self) -> bool {
        self.data@.len() == self.width * self.height
    }

    /// The texture as a sequence of colours, row 0 first.
    pub open spec fn view(&self) -> Seq<Color> {
        self.data@
    }

    /// Builds a texture from decoded pixels; `None` unless there is exactly
    /// one colour for each of the `width * height` texels.
    pub fn from_pixels(width: usize, height: usize, data: Vec<Color>) -> (t: Option<Texture>)
        ensures
            t.is_some() <==> data@.len() == width * height,
            t.is_some() ==> t.unwrap().wf() && t.unwrap().width == width && t.unwrap().height
                == height && t.unwrap()@ == data@,
    {
        assert(0 <= width * height <= u64::MAX * u64::MAX) by (nonlinear_arith)
            requires
                0 <= width <= u64::MAX,
                0 <= height <= u64::MAX,
        ;
        let count: u128 = (width as u128) * (height as u128);
        if data.len() as u128 == count {
            Some(Texture { width, height, data })
        } else {
            None
        }
    }

    /// The colour of texel `(x, y)`.
    pub fn get_color(&self, x: usize, y: usize) -> (c: Color)
        requires
            self.wf(),
            x < self.width,
            y < self.height,
        ensures
            c == self@[y * self.width + x],
    {
        proof {
            crate::framebuffer::lemma_offset_in_range(
                self.width as int,
                self.height as int,
                x as int,
                y as int,
            );
        }
        let count: usize = self.data.len();
        assert(y * self.width + x < count);
        self.data[y * self.width + x]
    }
}

} // verus!
