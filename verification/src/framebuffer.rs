use vstd::prelude::*;
use crate::color::Color;
use crate::line::{line_points, lemma_move, on_track, span, walk};

verus! {

/// The byte offset of pixel `(x, y)` in a row-major buffer of three bytes per pixel.
pub open spec fn byte_offset(width: int, x: int, y: int) -> int {
    (y * width + x) * 3
}

/// A row-major RGB image: three bytes per pixel, row 0 first.
#[derive(Debug)]
pub struct Framebuffer {
    pub width: usize,
    pub height: usize,
    pub data: Vec<u8>,
    pub current_color: (u8, u8, u8),
}

pub proof fn lemma_offset_in_range(width: int, height: int, x: int, y: int)
    requires
        0 <= x < width,
        0 <= y < height,
    ensures
        0 <= y * width + x < width * height,
        0 <= byte_offset(width, x, y),
        byte_offset(width, x, y) + 2 < width * height * 3,
        width * height <= width * height * 3,
{
    assert(0 <= y * width) by (nonlinear_arith)
        requires
            0 <= y,
            0 <= width,
    ;
    assert(y * width + width <= height * width) by (nonlinear_arith)
        requires
            y + 1 <= height,
            0 <= width,
    ;
    assert(height * width == width * height) by (nonlinear_arith);
    assert(width * height <= width * height * 3) by (nonlinear_arith)
        requires
            0 <= width,
            0 <= height,
    ;
}

impl Framebuffer {
    /// The buffer holds exactly three bytes for each pixel.
    pub open spec fn wf(&self) -> bool {
        self.data@.len() == self.width * self.height * 3 && self.data@.len() <= usize::MAX
    }

    /// Whether `(x, y)` names a pixel of the image.
    pub open spec fn contains(&self, x: int, y: int) -> bool {
        0 <= x < self.width && 0 <= y < self.height
    }

    /// The colour stored for the `k`-th pixel in row-major order.
    pub open spec fn pixel(&self, k: int) -> Color {
        Color { red: self.data@[3 * k], green: self.data@[3 * k + 1], blue: self.data@[3 * k + 2] }
    }

    /// The image as a sequence of colours, row 0 first.
    pub open spec fn view(&self) -> Seq<Color> {
        Seq::new((self.width * self.height) as nat, |k: int| self.pixel(k))
    }

    /// The colour that `point` draws with.
    pub open spec fn pen(&self) -> Color {
        Color { red: self.current_color.0, green: self.current_color.1, blue: self.current_color.2 }
    }

    /// A black image of the given size, with a black pen.
    pub fn new(width: usize, height: usize) -> (fb: Framebuffer)
        requires
            width * height * 3 <= usize::MAX,
        ensures
            fb.wf(),
            fb.width == width,
            fb.height == height,
            fb.pen() == (Color { red: 0, green: 0, blue: 0 }),
            forall|i: int| 0 <= i < fb.data@.len() ==> fb.data@[i] == 0,
            fb@ == Seq::new((width * height) as nat, |k: int| Color { red: 0, green: 0, blue: 0 }),
    {
        assert(width * height <= width * height * 3) by (nonlinear_arith)
            requires
                0 <= width,
                0 <= height,
        ;
        let size: usize = width * height * 3;
        let data: Vec<u8> = vec![0u8; size];
        let fb = Framebuffer { width, height, data, current_color: (0, 0, 0) };
        assert(fb@ =~= Seq::new(
            (width * height) as nat,
            |k: int| Color { red: 0, green: 0, blue: 0 },
        ));
        fb
    }

    /// Sets the pen; the image is untouched.
    pub fn set_current_color(&mut self, color: Color)
        ensures
            final(self).pen() == color,
            final(self).width == old(self).width,
            final(self).height == old(self).height,
            final(self).data == old(self).data,
            final(self)@ == old(self)@,
    {
        self.current_color = (color.red, color.green, color.blue);
        assert(self@ =~= old(self)@);
    }

    /// Paints every pixel with `color`.
    pub fn set_background_color(&mut self, color: Color)
        requires
            old(self).wf(),
        ensures
            final(self).wf(),
            final(self).width == old(self).width,
            final(self).height == old(self).height,
            final(self).pen() == old(self).pen(),
            final(self)@ == Seq::new(old(self)@.len(), |k: int| color),
    {
        proof {
            assert(self.width * self.height <= self.width * self.height * 3) by (nonlinear_arith)
                requires
                    0 <= self.width,
                    0 <= self.height,
            ;
        }
        let count: usize = self.width * self.height;
        let mut k: usize = 0;
        while k < count
            invariant
                self.wf(),
                self.width == old(self).width,
                self.height == old(self).height,
                self.current_color == old(self).current_color,
                count == self.width * self.height,
                0 <= k <= count,
                forall|j: int| 0 <= j < k ==> self.pixel(j) == color,
            decreases count - k,
        {
            let ghost before = *self;
            self.data.set(3 * k, color.red);
            self.data.set(3 * k + 1, color.green);
            self.data.set(3 * k + 2, color.blue);
            assert forall|j: int| 0 <= j < k + 1 implies self.pixel(j) == color by {
                if j < k {
                    assert(before.pixel(j) == color);
                }
            }
            k += 1;
        }
        assert(self@ =~= Seq::new(old(self)@.len(), |k: int| color));
    }

    /// Sets every byte of the image to zero: every pixel becomes black.
    pub fn clear(&mut self)
        requires
            old(self).wf(),
        ensures
            final(self).wf(),
            final(self).width == old(self).width,
            final(self).height == old(self).height,
            final(self).pen() == old(self).pen(),
            final(self)@ == Seq::new(old(self)@.len(), |k: int| Color { red: 0, green: 0, blue: 0 }),
    {
        let n: usize = self.data.len();
        let mut i: usize = 0;
        while i < n
            invariant
                self.data@.len() == n,
                self.width == old(self).width,
                self.height == old(self).height,
                self.current_color == old(self).current_color,
                0 <= i <= n,
                forall|j: int| 0 <= j < i ==> self.data@[j] == 0,
            decreases n - i,
        {
            self.data.set(i, 0);
            i += 1;
        }
        assert(self@ =~= Seq::new(
            old(self)@.len(),
            |k: int| Color { red: 0, green: 0, blue: 0 },
        ));
    }

    /// Writes one pixel. A position outside the image is ignored.
    pub fn set_pixel(&mut self, x: usize, y: usize, r: u8, g: u8, b: u8)
        requires
            old(self).wf(),
        ensures
            final(self).wf(),
            final(self).width == old(self).width,
            final(self).height == old(self).height,
            final(self).pen() == old(self).pen(),
            old(self).contains(x as int, y as int) ==> final(self)@ == old(self)@.update(
                y * old(self).width + x,
                Color { red: r, green: g, blue: b },
            ),
            !old(self).contains(x as int, y as int) ==> final(self).data == old(self).data,
            final(self)@ == plot(
                old(self)@,
                old(self).width as int,
                old(self).height as int,
                x as int,
                y as int,
                Color { red: r, green: g, blue: b },
            ),
    {
        if x >= self.width || y >= self.height {
            assert(self@ =~= old(self)@);
            return ;
        }
        proof {
            lemma_offset_in_range(self.width as int, self.height as int, x as int, y as int);
        }
        let index: usize = (y * self.width + x) * 3;
        self.data.set(index, r);
        self.data.set(index + 1, g);
        self.data.set(index + 2, b);
        assert(self@ =~= old(self)@.update(
            y * old(self).width + x,
            Color { red: r, green: g, blue: b },
        ));
    }

    /// Draws the pixel `(x, y)` with the pen. A position outside the image is ignored.
    pub fn point(&mut self, x: isize, y: isize)
        requires
            old(self).wf(),
        ensures
            final(self).wf(),
            final(self).width == old(self).width,
            final(self).height == old(self).height,
            final(self).pen() == old(self).pen(),
            final(self)@ == plot(old(self)@, old(self).width as int, old(self).height as int, x as int, y as int, old(self).pen()),
    {
        if x < 0 || y < 0 {
            return ;
        }
        let xu: usize = x as usize;
        let yu: usize = y as usize;
        if xu >= self.width || yu >= self.height {
            return ;
        }
        self.set_pixel(xu, yu, self.current_color.0, self.current_color.1, self.current_color.2);
    }

    /// Reads one pixel; `None` for a position outside the image.
    pub fn get_pixel(&self, x: isize, y: isize) -> (p: Option<(u8, u8, u8)>)
        requires
            self.wf(),
        ensures
            self.contains(x as int, y as int) ==> p == Some(
                (
                    self@[y * self.width + x].red,
                    self@[y * self.width + x].green,
                    self@[y * self.width + x].blue,
                ),
            ),
            !self.contains(x as int, y as int) ==> p.is_none(),
    {
        if x < 0 || y < 0 {
            return None;
        }
        let xu: usize = x as usize;
        let yu: usize = y as usize;
        if xu >= self.width || yu >= self.height {
            return None;
        }
        proof {
            lemma_offset_in_range(self.width as int, self.height as int, x as int, y as int);
        }
        let index: usize = (yu * self.width + xu) * 3;
        Some((self.data[index], self.data[index + 1], self.data[index + 2]))
    }

    /// Splits `0xRRGGBB` into its three channels; the high byte is ignored.
    pub fn hex_to_rgb(hex: u32) -> (c: (u8, u8, u8))
        ensures
            c.0 as int == (hex as int / 65536) % 256,
            c.1 as int == (hex as int / 256) % 256,
            c.2 as int == hex as int % 256,
    {
        let color = Color::from_hex(hex);
        (color.red, color.green, color.blue)
    }

    /// The image as one packed `0x00RRGGBB` value per pixel, row 0 first.
    pub fn to_u32_buffer(&self) -> (buffer: Vec<u32>)
        requires
            self.wf(),
        ensures
            buffer@.len() == self.width * self.height,
            forall|k: int| 0 <= k < buffer@.len() ==> buffer@[k] as int == self@[k].packed(),
    {
        proof {
            assert(self.width * self.height <= self.width * self.height * 3) by (nonlinear_arith)
                requires
                    0 <= self.width,
                    0 <= self.height,
            ;
        }
        let count: usize = self.width * self.height;
        let mut buffer: Vec<u32> = Vec::new();
        let mut k: usize = 0;
        while k < count
            invariant
                self.wf(),
                count == self.width * self.height,
                0 <= k <= count,
                buffer@.len() == k,
                forall|j: int| 0 <= j < k ==> buffer@[j] as int == self.pixel(j).packed(),
            decreases count - k,
        {
            let color = Color::new(self.data[3 * k], self.data[3 * k + 1], self.data[3 * k + 2]);
            buffer.push(color.to_hex());
            k += 1;
        }
        buffer
    }

    /// Draws the segment from `(x1, y1)` to `(x2, y2)` with the pen, both ends
    /// included. Pixels of the segment that fall outside the image are skipped.
    pub fn draw_line(&mut self, x1: isize, y1: isize, x2: isize, y2: isize)
        requires
            old(self).wf(),
            fits_line(x1 as int),
            fits_line(y1 as int),
            fits_line(x2 as int),
            fits_line(y2 as int),
        ensures
            final(self).wf(),
            final(self).width == old(self).width,
            final(self).height == old(self).height,
            final(self).pen() == old(self).pen(),
            final(self)@ == plot_all(
                old(self)@,
                old(self).width as int,
                old(self).height as int,
                line_points(x1 as int, y1 as int, x2 as int, y2 as int),
                old(self).pen(),
            ),
    {
        let dx: isize = if x1 < x2 {
            x2 - x1
        } else {
            x1 - x2
        };
        let sx: isize = if x1 < x2 {
            1
        } else {
            -1
        };
        let dy: isize = if y1 < y2 {
            y1 - y2
        } else {
            y2 - y1
        };
        let sy: isize = if y1 < y2 {
            1
        } else {
            -1
        };
        let mut err: isize = dx + dy;
        let mut x: isize = x1;
        let mut y: isize = y1;
        let ghost w = self.width as int;
        let ghost h = self.height as int;
        let ghost gdx = span(x1 as int, x2 as int);
        let ghost gdy = span(y1 as int, y2 as int);
        let ghost points = line_points(x1 as int, y1 as int, x2 as int, y2 as int);
        let ghost drawn: Seq<(int, int)> = Seq::empty();
        let ghost i: int = 0;
        let ghost j: int = 0;
        let ghost fuel: nat = gdx + gdy;
        proof {
            assert((0 + 1) * gdx - (0 + 1) * gdy == gdx - gdy) by (nonlinear_arith);
            assert(drawn + walk(x as int, y as int, err as int, x2 as int, y2 as int, gdx, gdy, fuel)
                =~= points);
        }
        loop
            invariant_except_break
                points == drawn + walk(
                    x as int,
                    y as int,
                    err as int,
                    x2 as int,
                    y2 as int,
                    gdx,
                    gdy,
                    fuel,
                ),
                self@ == plot_all(old(self)@, w, h, drawn, old(self).pen()),
            invariant
                self.wf(),
                self.width == old(self).width,
                self.height == old(self).height,
                self.current_color == old(self).current_color,
                w == self.width,
                h == self.height,
                gdx == dx,
                gdy == -dy,
                3 * gdx <= isize::MAX,
                3 * gdy <= isize::MAX,
                sx == (if x1 < x2 { 1int } else { -1int }),
                sy == (if y1 < y2 { 1int } else { -1int }),
                x1 < x2 ==> x <= x2,
                x1 >= x2 ==> x >= x2,
                y1 < y2 ==> y <= y2,
                y1 >= y2 ==> y >= y2,
                on_track(x as int, y as int, err as int, x2 as int, y2 as int, gdx, gdy, i, j),
                fuel >= (gdx - i) + (gdy - j),
            ensures
                self.wf(),
                self.width == old(self).width,
                self.height == old(self).height,
                self.current_color == old(self).current_color,
                self@ == plot_all(old(self)@, w, h, points, old(self).pen()),
            decreases fuel,
        {
            self.point(x, y);
            proof {
                let next = drawn.push((x as int, y as int));
                assert(next.drop_last() =~= drawn);
                assert(self@ == plot_all(old(self)@, w, h, next, old(self).pen()));
            }
            if x == x2 && y == y2 {
                proof {
                    assert(drawn + seq![(x as int, y as int)] =~= drawn.push((x as int, y as int)));
                }
                break ;
            }
            proof {
                lemma_move(x as int, y as int, err as int, x2 as int, y2 as int, gdx, gdy, i, j);
                let rest = walk(
                    if 2 * err >= -gdy { x + sx } else { x as int },
                    if 2 * err <= gdx { y + sy } else { y as int },
                    err - (if 2 * err >= -gdy { gdy as int } else { 0 }) + (if 2 * err <= gdx { gdx as int } else { 0 }),
                    x2 as int,
                    y2 as int,
                    gdx,
                    gdy,
                    (fuel - 1) as nat,
                );
                assert(drawn + (seq![(x as int, y as int)] + rest) =~= drawn.push((x as int, y as int)) + rest);
                drawn = drawn.push((x as int, y as int));
            }
            let e2: isize = 2 * err;
            if e2 >= dy {
                err += dy;
                x += sx;
                proof {
                    i = i + 1;
                }
            }
            if e2 <= dx {
                err += dx;
                y += sy;
                proof {
                    j = j + 1;
                }
            }
            proof {
                fuel = (fuel - 1) as nat;
            }
        }
    }

    /// Writes the colours found for a frame, each to its pixel, in order; a
    /// later entry for one pixel wins. Entries outside the image are skipped.
    /// The pen is left at the colour of the last entry.
    pub fn draw_pixels(&mut self, pixels: &Vec<(usize, usize, Color)>)
        requires
            old(self).wf(),
        ensures
            final(self).wf(),
            final(self).width == old(self).width,
            final(self).height == old(self).height,
            final(self).pen() == (if pixels@.len() == 0 {
                old(self).pen()
            } else {
                pixels@.last().2
            }),
            final(self)@ == paint_all(old(self)@, old(self).width as int, old(self).height as int, pixels@),
    {
        let mut n: usize = 0;
        while n < pixels.len()
            invariant
                self.wf(),
                self.width == old(self).width,
                self.height == old(self).height,
                0 <= n <= pixels@.len(),
                self.pen() == (if n == 0 {
                    old(self).pen()
                } else {
                    pixels@[n - 1].2
                }),
                self@ == paint_all(
                    old(self)@,
                    old(self).width as int,
                    old(self).height as int,
                    pixels@.take(n as int),
                ),
            decreases pixels@.len() - n,
        {
            let (x, y, color) = pixels[n];
            self.set_current_color(color);
            self.set_pixel(x, y, color.red, color.green, color.blue);
            proof {
                assert(pixels@.take(n + 1).drop_last() =~= pixels@.take(n as int));
                assert(pixels@.take(n + 1).last() == pixels@[n as int]);
            }
            n += 1;
        }
        proof {
            assert(pixels@.take(n as int) =~= pixels@);
        }
    }
}

/// The image `img` after the pen `color` was put to `(x, y)`: unchanged where
/// the position lies outside the `width` by `height` image.
pub open spec fn plot(
    img: Seq<Color>,
    width: int,
    height: int,
    x: int,
    y: int,
    color: Color,
) -> Seq<Color> {
    if 0 <= x < width && 0 <= y < height {
        img.update(y * width + x, color)
    } else {
        img
    }
}

/// The image after each position of `points` was put to with `color`, in order.
pub open spec fn plot_all(
    img: Seq<Color>,
    width: int,
    height: int,
    points: Seq<(int, int)>,
    color: Color,
) -> Seq<Color>
    decreases points.len(),
{
    if points.len() == 0 {
        img
    } else {
        plot(
            plot_all(img, width, height, points.drop_last(), color),
            width,
            height,
            points.last().0,
            points.last().1,
            color,
        )
    }
}

/// The image after each entry of `pixels`, a position and its colour, was
/// written in order.
pub open spec fn paint_all(
    img: Seq<Color>,
    width: int,
    height: int,
    pixels: Seq<(usize, usize, Color)>,
) -> Seq<Color>
    decreases pixels.len(),
{
    if pixels.len() == 0 {
        img
    } else {
        plot(
            paint_all(img, width, height, pixels.drop_last()),
            width,
            height,
            pixels.last().0 as int,
            pixels.last().1 as int,
            pixels.last().2,
        )
    }
}

/// Whether a coordinate is small enough for twice the line walk's error term,
/// which may reach three times a span, to fit the machine word.
pub open spec fn fits_line(c: int) -> bool {
    -(isize::MAX / 6) <= c <= isize::MAX / 6
}

} // verus!
