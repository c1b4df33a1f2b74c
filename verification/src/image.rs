//! Pixels and the image buffer, with its text serialization.
use vstd::prelude::*;

use vstd::arithmetic::div_mod::lemma_fundamental_div_mod_converse;
use vstd::string::StringExecFns;

use crate::fixed::{fp_div_s, SCALE};
use crate::numbers::{pixel_channel_s, Color};

verus! {

/// RGB format with channel values from 0-255
/// expected to be gamma-corrected
#[derive(Copy, Clone, Debug, PartialEq, Eq, Structural)]
pub struct Pixel {
    pub r: u8,
    pub g: u8,
    pub b: u8,
}

/// The character of one decimal digit.
pub open spec fn digit_char(d: int) -> char {
    if d == 0 {
        '0'
    } else if d == 1 {
        '1'
    } else if d == 2 {
        '2'
    } else if d == 3 {
        '3'
    } else if d == 4 {
        '4'
    } else if d == 5 {
        '5'
    } else if d == 6 {
        '6'
    } else if d == 7 {
        '7'
    } else if d == 8 {
        '8'
    } else {
        '9'
    }
}

/// The decimal digits of a nonnegative number, most significant first.
pub open spec fn dec_seq(n: int) -> Seq<char>
    decreases n,
{
    if n < 10 {
        seq![digit_char(n)]
    } else {
        dec_seq(n / 10).push(digit_char(n % 10))
    }
}

/// One pixel's text line: the three channels separated by spaces.
pub open spec fn pixel_line_s(p: Pixel) -> Seq<char> {
    dec_seq(p.r as int) + seq![' '] + dec_seq(p.g as int) + seq![' '] + dec_seq(p.b as int) + seq![
        '\n',
    ]
}

fn digit_str(d: u64) -> (r: &'static str)
    requires
        d < 10,
    ensures
        r@ == seq![digit_char(d as int)],
{
    if d == 0 {
        proof {
            reveal_strlit("0");
            assert("0"@ =~= seq![digit_char(0int)]);
        }
        "0"
    } else if d == 1 {
        proof {
            reveal_strlit("1");
            assert("1"@ =~= seq![digit_char(1int)]);
        }
        "1"
    } else if d == 2 {
        proof {
            reveal_strlit("2");
            assert("2"@ =~= seq![digit_char(2int)]);
        }
        "2"
    } else if d == 3 {
        proof {
            reveal_strlit("3");
            assert("3"@ =~= seq![digit_char(3int)]);
        }
        "3"
    } else if d == 4 {
        proof {
            reveal_strlit("4");
            assert("4"@ =~= seq![digit_char(4int)]);
        }
        "4"
    } else if d == 5 {
        proof {
            reveal_strlit("5");
            assert("5"@ =~= seq![digit_char(5int)]);
        }
        "5"
    } else if d == 6 {
        proof {
            reveal_strlit("6");
            assert("6"@ =~= seq![digit_char(6int)]);
        }
        "6"
    } else if d == 7 {
        proof {
            reveal_strlit("7");
            assert("7"@ =~= seq![digit_char(7int)]);
        }
        "7"
    } else if d == 8 {
        proof {
            reveal_strlit("8");
            assert("8"@ =~= seq![digit_char(8int)]);
        }
        "8"
    } else {
        proof {
            reveal_strlit("9");
            assert("9"@ =~= seq![digit_char(9int)]);
        }
        "9"
    }
}

/// Append the decimal digits of `n`.
fn append_decimal(s: &mut String, n: u64)
    ensures
        final(s)@ == old(s)@ + dec_seq(n as int),
    decreases n,
{
    if n < 10 {
        s.append(digit_str(n));
    } else {
        append_decimal(s, n / 10);
        s.append(digit_str(n % 10));
        proof {
            assert(old(s)@ + dec_seq(n as int / 10) + seq![digit_char(n as int % 10)] =~= old(s)@
                + dec_seq(n as int));
        }
    }
}

impl Pixel {
    /// produce a pixel value from gamma-corrected channels
    pub fn new(r: u8, g: u8, b: u8) -> (p: Pixel)
        ensures
            p == (Pixel { r, g, b }),
    {
        Pixel { r, g, b }
    }

    /// The pixel's text line in the portable-pixmap format.
    pub fn serialize_ppm(&self) -> (out: String)
        ensures
            out@ == pixel_line_s(*self),
    {
        let mut s = String::new();
        append_decimal(&mut s, self.r as u64);
        proof {
            reveal_strlit(" ");
            reveal_strlit("\n");
        }
        s.append(" ");
        append_decimal(&mut s, self.g as u64);
        s.append(" ");
        append_decimal(&mut s, self.b as u64);
        s.append("\n");
        proof {
            assert(" "@ =~= seq![' ']);
            assert("\n"@ =~= seq!['\n']);
            assert(s@ =~= pixel_line_s(*self));
        }
        s
    }
}

/// The color the buffer is initialized with: a horizontal red ramp, a
/// vertical green ramp, and a constant quarter of blue.
pub open spec fn gradient_color_s(x: int, y: int, width: int, height: int) -> Color {
    Color {
        r: fp_div_s(x * SCALE, (width - 1) * SCALE) as i64,
        g: fp_div_s(y * SCALE, (height - 1) * SCALE) as i64,
        b: 16384i64,
    }
}

pub open spec fn gradient_pixel_s(x: int, y: int, width: int, height: int) -> Pixel {
    let c = gradient_color_s(x, y, width, height);
    Pixel {
        r: pixel_channel_s(c.r as int) as u8,
        g: pixel_channel_s(c.g as int) as u8,
        b: pixel_channel_s(c.b as int) as u8,
    }
}

/// The pixel lines of the whole buffer, in row-major order.
pub open spec fn ppm_body_s(pixels: Seq<Pixel>) -> Seq<char>
    decreases pixels.len(),
{
    if pixels.len() == 0 {
        Seq::empty()
    } else {
        ppm_body_s(pixels.drop_last()) + pixel_line_s(pixels.last())
    }
}

/// The whole portable-pixmap text: magic number, dimensions, the channel
/// maximum, then one line per pixel.
pub open spec fn ppm_s(width: int, height: int, pixels: Seq<Pixel>) -> Seq<char> {
    seq!['P', '3', '\n'] + dec_seq(width) + seq![' '] + dec_seq(height) + seq!['\n'] + dec_seq(255)
        + seq!['\n'] + ppm_body_s(pixels)
}

/// simple image buffer with width and height
pub struct ImageBuffer {
    pub width: usize,
    pub height: usize,
    pub buffer: Vec<Pixel>,
}

pub open spec fn image_ok(b: ImageBuffer) -> bool {
    b.buffer@.len() == b.width * b.height
}

impl ImageBuffer {
    /// A fresh buffer of the given dimensions, filled with the test
    /// gradient.
    pub fn new(width: usize, height: usize) -> (b: ImageBuffer)
        requires
            2 <= width <= 100000,
            2 <= height <= 100000,
            width * height <= usize::MAX,
        ensures
            b.width == width,
            b.height == height,
            b.buffer@.len() == width * height,
            forall|k: int|
                0 <= k < b.buffer@.len() ==> #[trigger] b.buffer@[k] == gradient_pixel_s(
                    k % width as int,
                    k / width as int,
                    width as int,
                    height as int,
                ),
            image_ok(b),
    {
        let mut buffer: Vec<Pixel> = Vec::new();
        let wb: i64 = ((width - 1) as i64) * SCALE;
        let hb: i64 = ((height - 1) as i64) * SCALE;
        let mut y: usize = 0;
        while y < height
            invariant
                2 <= width <= 100000,
                2 <= height <= 100000,
                width * height <= usize::MAX,
                y <= height,
                wb as int == (width - 1) * SCALE,
                hb as int == (height - 1) * SCALE,
                buffer@.len() == y * width,
                forall|k: int|
                    0 <= k < buffer@.len() ==> #[trigger] buffer@[k] == gradient_pixel_s(
                        k % width as int,
                        k / width as int,
                        width as int,
                        height as int,
                    ),
            decreases height - y,
        {
            let mut x: usize = 0;
            proof {
                assert(y * width + width <= height * width) by (nonlinear_arith)
                    requires
                        y < height,
                        width >= 0,
                ;
            }
            while x < width
                invariant
                    2 <= width <= 100000,
                    2 <= height <= 100000,
                    y < height,
                    y * width + width <= height * width,
                    width * height <= usize::MAX,
                    height * width == width * height,
                    x <= width,
                    wb as int == (width - 1) * SCALE,
                    hb as int == (height - 1) * SCALE,
                    buffer@.len() == y * width + x,
                    forall|k: int|
                        0 <= k < buffer@.len() ==> #[trigger] buffer@[k] == gradient_pixel_s(
                            k % width as int,
                            k / width as int,
                            width as int,
                            height as int,
                        ),
                decreases width - x,
            {
                let r = crate::fixed::fp_div(((x as i64) * SCALE), wb);
                let g = crate::fixed::fp_div(((y as i64) * SCALE), hb);
                let c = Color::new(r, g, 16384);
                let p = c.to_pixel();
                proof {
                    lemma_fundamental_div_mod_converse(
                        (y * width + x) as int,
                        width as int,
                        y as int,
                        x as int,
                    );
                    assert(p == gradient_pixel_s(x as int, y as int, width as int, height as int));
                }
                buffer.push(p);
                x = x + 1;
            }
            proof {
                assert((y + 1) * width == y * width + width) by (nonlinear_arith);
            }
            y = y + 1;
        }
        proof {
            assert(height * width == width * height) by (nonlinear_arith);
        }
        ImageBuffer { width, height, buffer }
    }

    /// Replace the buffer's pixels when the replacement has the right size;
    /// a mismatched replacement leaves the buffer unchanged.
    pub fn swap_pixels(&mut self, other: Vec<Pixel>)
        ensures
            other@.len() == old(self).buffer@.len() ==> final(self).buffer@ == other@,
            other@.len() != old(self).buffer@.len() ==> final(self).buffer@ == old(self).buffer@,
            final(self).width == old(self).width,
            final(self).height == old(self).height,
            image_ok(*old(self)) ==> image_ok(*final(self)),
    {
        if other.len() == self.buffer.len() {
            self.buffer = other;
        }
    }

    /// The whole image as portable-pixmap text.
    pub fn serialize_ppm(&self) -> (out: String)
        ensures
            out@ == ppm_s(self.width as int, self.height as int, self.buffer@),
    {
        let mut s = String::new();
        proof {
            reveal_strlit("P3\n");
            reveal_strlit(" ");
            reveal_strlit("\n");
        }
        s.append("P3\n");
        append_decimal(&mut s, self.width as u64);
        s.append(" ");
        append_decimal(&mut s, self.height as u64);
        s.append("\n");
        append_decimal(&mut s, 255);
        s.append("\n");
        proof {
            assert("P3\n"@ =~= seq!['P', '3', '\n']);
            assert(" "@ =~= seq![' ']);
            assert("\n"@ =~= seq!['\n']);
            assert(s@ =~= ppm_s(self.width as int, self.height as int, Seq::<Pixel>::empty()));
        }
        let ghost header = s@;
        let mut i: usize = 0;
        while i < self.buffer.len()
            invariant
                i <= self.buffer.len(),
                s@ == header + ppm_body_s(self.buffer@.take(i as int)),
                header == ppm_s(self.width as int, self.height as int, Seq::<Pixel>::empty()),
            decreases self.buffer.len() - i,
        {
            let line = self.buffer[i].serialize_ppm();
            s.append(line.as_str());
            proof {
                let pre = self.buffer@.take(i as int);
                let post = self.buffer@.take(i + 1);
                assert(post.drop_last() =~= pre);
                assert(post.last() == self.buffer@[i as int]);
                assert(header + ppm_body_s(pre) + pixel_line_s(self.buffer@[i as int]) =~= header
                    + ppm_body_s(post));
            }
            i = i + 1;
        }
        proof {
            assert(self.buffer@.take(self.buffer@.len() as int) =~= self.buffer@);
            assert(header + ppm_body_s(self.buffer@) =~= ppm_s(
                self.width as int,
                self.height as int,
                self.buffer@,
            ));
        }
        s
    }
}

} // verus!
