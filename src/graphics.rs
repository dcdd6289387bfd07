//! Painting into a linear framebuffer of pixels stored blue, green, red.
use vstd::prelude::*;

use vstd::arithmetic::div_mod::{lemma_fundamental_div_mod, lemma_fundamental_div_mod_converse};

verus! {

/// A color given by its red, green and blue components.
#[derive(Clone, Copy, Debug, PartialEq, Eq, Structural)]
pub struct Color {
    red: u8,
    green: u8,
    blue: u8,
}

impl Color {
    pub closed spec fn red_spec(self) -> u8 {
        self.red
    }

    pub closed spec fn green_spec(self) -> u8 {
        self.green
    }

    pub closed spec fn blue_spec(self) -> u8 {
        self.blue
    }

    pub fn from(red: u8, green: u8, blue: u8) -> (r: Color)
        ensures
            r.red_spec() == red,
            r.green_spec() == green,
            r.blue_spec() == blue,
    {
        Color { red, green, blue }
    }

    /// The color written `0xRRGGBB`; bits above the low 24 are ignored.
    pub fn hex(hex: u32) -> (r: Color)
        ensures
            r.red_spec() == (hex / 0x10000) % 256,
            r.green_spec() == (hex / 0x100) % 256,
            r.blue_spec() == hex % 256,
    {
        assert(((hex >> 16u32) as u8) as int == (hex / 0x10000) % 256) by (bit_vector);
        assert(((hex >> 8u32) as u8) as int == (hex / 0x100) % 256) by (bit_vector);
        assert((hex as u8) as int == hex % 256) by (bit_vector);
        Color {
            red: (#[verifier::truncate] ((hex >> 16) as u8)),
            green: (#[verifier::truncate] ((hex >> 8) as u8)),
            blue: (#[verifier::truncate] (hex as u8)),
        }
    }

    pub fn red(&self) -> (r: u8)
        ensures
            r == self.red_spec(),
    {
        self.red
    }

    pub fn green(&self) -> (r: u8)
        ensures
            r == self.green_spec(),
    {
        self.green
    }

    pub fn blue(&self) -> (r: u8)
        ensures
            r == self.blue_spec(),
    {
        self.blue
    }
}

/// The byte of `color` stored at channel `ch` of a pixel.
pub open spec fn channel(color: Color, ch: int) -> u8 {
    if ch == 0 {
        color.blue_spec()
    } else if ch == 1 {
        color.green_spec()
    } else {
        color.red_spec()
    }
}

/// The shape of a framebuffer: its size in pixels, the bytes of one line
/// and of one pixel.
pub struct Framebuffer {
    height: usize,
    width: usize,
    stride: usize,
    bytes_per_pixel: usize,
}

impl Framebuffer {
    pub closed spec fn height_spec(&self) -> int {
        self.height as int
    }

    pub closed spec fn width_spec(&self) -> int {
        self.width as int
    }

    /// Bytes per line.
    pub closed spec fn stride_spec(&self) -> int {
        self.stride as int
    }

    pub closed spec fn bpp_spec(&self) -> int {
        self.bytes_per_pixel as int
    }

    /// A pixel holds the three color bytes and lines do not overlap.
    pub open spec fn wf(&self) -> bool {
        self.bpp_spec() >= 3 && self.width_spec() * self.bpp_spec() <= self.stride_spec()
            && self.height_spec() * self.stride_spec() <= usize::MAX
    }

    /// A buffer of `len` bytes holds every line.
    pub open spec fn fits(&self, len: int) -> bool {
        self.height_spec() * self.stride_spec() <= len
    }

    /// A framebuffer of `width` by `height` pixels of `bytes_per_pixel`
    /// bytes each, whose lines start `stride` pixels apart; none where that
    /// shape is not well formed or its size overflows.
    pub fn new(width: usize, height: usize, stride: usize, bytes_per_pixel: usize) -> (r: Option<
        Framebuffer,
    >)
        ensures
            r.is_some() == (bytes_per_pixel >= 3 && width <= stride && stride * bytes_per_pixel
                <= usize::MAX && height * (stride * bytes_per_pixel) <= usize::MAX),
            r matches Some(fb) ==> fb.wf() && fb.width_spec() == width && fb.height_spec() == height
                && fb.stride_spec() == stride * bytes_per_pixel && fb.bpp_spec() == bytes_per_pixel,
    {
        if bytes_per_pixel < 3 || width > stride {
            return None;
        }
        let sb = match stride.checked_mul(bytes_per_pixel) {
            Some(v) => v,
            None => return None,
        };
        match height.checked_mul(sb) {
            Some(_) => {},
            None => return None,
        }
        proof {
            assert(width * bytes_per_pixel <= stride * bytes_per_pixel) by (nonlinear_arith)
                requires
                    width <= stride,
            ;
        }
        Some(Framebuffer { height, width, stride: sb, bytes_per_pixel })
    }

    pub fn width(&self) -> (r: usize)
        ensures
            r == self.width_spec(),
    {
        self.width
    }

    pub fn height(&self) -> (r: usize)
        ensures
            r == self.height_spec(),
    {
        self.height
    }

    /// Does a buffer of `len` bytes hold every line?
    pub fn fits_buffer(&self, len: usize) -> (r: bool)
        requires
            self.wf(),
        ensures
            r == self.fits(len as int),
    {
        self.height * self.stride <= len
    }
}

/// Byte `i` of the buffer belongs to a pixel of columns `[x0, x1)` and lines
/// `[y0, y1)`, and is one of its color bytes.
pub open spec fn in_span(fb: Framebuffer, x0: int, x1: int, y0: int, y1: int, i: int) -> bool {
    let row = i / fb.stride_spec();
    let col = (i % fb.stride_spec()) / fb.bpp_spec();
    let ch = (i % fb.stride_spec()) % fb.bpp_spec();
    y0 <= row < y1 && x0 <= col < x1 && ch < 3
}

/// The channel of the pixel that byte `i` belongs to.
pub open spec fn channel_of(fb: Framebuffer, i: int) -> int {
    (i % fb.stride_spec()) % fb.bpp_spec()
}

/// The buffer `after` is `before` with the color bytes of the pixels of columns
/// `[x0, x1)` and lines `[y0, y1)` set to `color`.
pub open spec fn painted(
    fb: Framebuffer,
    before: Seq<u8>,
    after: Seq<u8>,
    x0: int,
    x1: int,
    y0: int,
    y1: int,
    color: Color,
) -> bool {
    &&& after.len() == before.len()
    &&& forall|i: int|
        0 <= i < after.len() ==> #[trigger] after[i] == if in_span(fb, x0, x1, y0, y1, i) {
            channel(color, channel_of(fb, i))
        } else {
            before[i]
        }
}

/// The color byte `ch` of the pixel at column `col` of line `row` sits at
/// `row * stride + col * bpp + ch`, and nowhere else.
proof fn lemma_pixel_byte(fb: Framebuffer, row: int, col: int, ch: int)
    requires
        fb.wf(),
        0 <= row,
        0 <= col < fb.width_spec(),
        0 <= ch < 3,
    ensures
        ({
            let o = row * fb.stride_spec() + col * fb.bpp_spec() + ch;
            &&& o / fb.stride_spec() == row
            &&& (o % fb.stride_spec()) / fb.bpp_spec() == col
            &&& (o % fb.stride_spec()) % fb.bpp_spec() == ch
        }),
{
    let s = fb.stride_spec();
    let b = fb.bpp_spec();
    let w = fb.width_spec();
    assert(col * b + ch < s) by (nonlinear_arith)
        requires
            0 <= col < w,
            0 <= ch < 3,
            b >= 3,
            w * b <= s,
    ;
    lemma_fundamental_div_mod_converse(row * s + col * b + ch, s, row, col * b + ch);
    lemma_fundamental_div_mod_converse(col * b + ch, b, col, ch);
}

/// Every byte is at `row * stride + col * bpp + ch` for its own line, column
/// and channel.
proof fn lemma_byte_place(fb: Framebuffer, i: int)
    requires
        fb.wf(),
        fb.stride_spec() > 0,
        0 <= i,
    ensures
        i == (i / fb.stride_spec()) * fb.stride_spec() + ((i % fb.stride_spec()) / fb.bpp_spec())
            * fb.bpp_spec() + channel_of(fb, i),
{
    let s = fb.stride_spec();
    let b = fb.bpp_spec();
    lemma_fundamental_div_mod(i, s);
    lemma_fundamental_div_mod(i % s, b);
    assert(s * (i / s) == (i / s) * s) by (nonlinear_arith);
    assert(b * ((i % s) / b) == ((i % s) / b) * b) by (nonlinear_arith);
}

/// The last byte of a pixel inside the framebuffer lies inside the buffer.
proof fn lemma_pixel_in_buffer(fb: Framebuffer, row: int, col: int)
    requires
        fb.wf(),
        0 <= row < fb.height_spec(),
        0 <= col < fb.width_spec(),
    ensures
        row * fb.stride_spec() + col * fb.bpp_spec() + 2 < fb.height_spec() * fb.stride_spec(),
{
    let s = fb.stride_spec();
    let b = fb.bpp_spec();
    let w = fb.width_spec();
    let h = fb.height_spec();
    assert(col * b + 2 < s) by (nonlinear_arith)
        requires
            0 <= col < w,
            b >= 3,
            w * b <= s,
    ;
    assert(row * s + s <= h * s) by (nonlinear_arith)
        requires
            0 <= row < h,
            s >= 0,
    ;
}

/// Store `color` in the pixel whose first byte is at `offset`.
pub fn set_pixel(buf: &mut [u8], offset: usize, color: Color)
    requires
        offset + 3 <= old(buf)@.len(),
    ensures
        final(buf)@ == old(buf)@.update(offset as int, color.blue_spec()).update(
            offset + 1,
            color.green_spec(),
        ).update(offset + 2, color.red_spec()),
{
    buf[offset] = color.blue;
    buf[offset + 1] = color.green;
    buf[offset + 2] = color.red;
}

impl Framebuffer {
    /// The offset of the first byte of the pixel at `(x, y)`.
    fn pixel_offset(&self, x: usize, y: usize) -> (r: usize)
        requires
            self.wf(),
            x < self.width_spec(),
            y < self.height_spec(),
        ensures
            r == y * self.stride_spec() + x * self.bpp_spec(),
            r + 2 < self.height_spec() * self.stride_spec(),
    {
        proof {
            lemma_pixel_in_buffer(*self, y as int, x as int);
            assert(y * self.stride_spec() <= y * self.stride_spec() + x * self.bpp_spec()) by (nonlinear_arith)
                requires
                    x >= 0,
                    self.bpp_spec() >= 0,
            ;
        }
        y * self.stride + x * self.bytes_per_pixel
    }
}

/// Paint the pixel at `(x, y)` with `color`.
pub fn draw_pixel(fb: &Framebuffer, buf: &mut [u8], x: usize, y: usize, color: Color)
    requires
        fb.wf(),
        fb.fits(old(buf)@.len() as int),
        x < fb.width_spec(),
        y < fb.height_spec(),
    ensures
        painted(*fb, old(buf)@, final(buf)@, x as int, x + 1, y as int, y + 1, color),
{
    let offset = fb.pixel_offset(x, y);
    set_pixel(buf, offset, color);
    proof {
        paint_step(*fb, old(buf)@, old(buf)@, buf@, x as int, x as int, y as int, color);
    }
}

/// Painting the pixel at `(c, y)` after those of columns `[x, c)` on line
/// `y` gives the span `[x, c + 1)`.
proof fn paint_step(
    fb: Framebuffer,
    orig: Seq<u8>,
    before: Seq<u8>,
    after: Seq<u8>,
    x: int,
    c: int,
    y: int,
    color: Color,
)
    requires
        fb.wf(),
        0 <= x <= c < fb.width_spec(),
        0 <= y < fb.height_spec(),
        fb.height_spec() * fb.stride_spec() <= before.len(),
        painted(fb, orig, before, x, c, y, y + 1, color),
        ({
            let o = y * fb.stride_spec() + c * fb.bpp_spec();
            after == before.update(o, color.blue_spec()).update(o + 1, color.green_spec()).update(
                o + 2,
                color.red_spec(),
            )
        }),
    ensures
        painted(fb, orig, after, x, c + 1, y, y + 1, color),
{
    let o = y * fb.stride_spec() + c * fb.bpp_spec();
    lemma_pixel_byte(fb, y, c, 0);
    lemma_pixel_byte(fb, y, c, 1);
    lemma_pixel_byte(fb, y, c, 2);
    lemma_pixel_in_buffer(fb, y, c);
    assert(fb.stride_spec() > 0) by (nonlinear_arith)
        requires
            fb.width_spec() * fb.bpp_spec() <= fb.stride_spec(),
            fb.width_spec() > 0,
            fb.bpp_spec() >= 3,
    ;
    assert forall|i: int| 0 <= i < after.len() implies #[trigger] after[i] == if in_span(
        fb,
        x,
        c + 1,
        y,
        y + 1,
        i,
    ) {
        channel(color, channel_of(fb, i))
    } else {
        orig[i]
    } by {
        if i != o && i != o + 1 && i != o + 2 {
            assert(after[i] == before[i]);
            lemma_byte_place(fb, i);
            if in_span(fb, x, c + 1, y, y + 1, i) && !in_span(fb, x, c, y, y + 1, i) {
                assert(i == o + channel_of(fb, i));
            }
        }
    }
}

/// Paint `len` pixels of line `y` with `color`, from column `x` on.
pub fn draw_hori_line(fb: &Framebuffer, buf: &mut [u8], x: usize, y: usize, len: usize, color: Color)
    requires
        fb.wf(),
        fb.fits(old(buf)@.len() as int),
        x + len <= fb.width_spec(),
        y < fb.height_spec(),
    ensures
        painted(*fb, old(buf)@, final(buf)@, x as int, x + len, y as int, y + 1, color),
{
    let mut c: usize = x;
    let end = x + len;
    while c < end
        invariant
            fb.wf(),
            fb.fits(old(buf)@.len() as int),
            end == x + len,
            end <= fb.width_spec(),
            y < fb.height_spec(),
            x <= c <= end,
            painted(*fb, old(buf)@, buf@, x as int, c as int, y as int, y + 1, color),
        decreases end - c,
    {
        let ghost before = buf@;
        let offset = fb.pixel_offset(c, y);
        set_pixel(buf, offset, color);
        proof {
            paint_step(*fb, old(buf)@, before, buf@, x as int, c as int, y as int, color);
        }
        c += 1;
    }
}

/// Paint the `w` by `h` rectangle whose top left pixel is `(x, y)` with
/// `color`.
pub fn draw_rect(fb: &Framebuffer, buf: &mut [u8], x: usize, y: usize, w: usize, h: usize, color: Color)
    requires
        fb.wf(),
        fb.fits(old(buf)@.len() as int),
        x + w <= fb.width_spec(),
        y + h <= fb.width_spec(),
        y + h <= fb.height_spec(),
    ensures
        painted(*fb, old(buf)@, final(buf)@, x as int, x + w, y as int, y + h, color),
{
    let mut r: usize = y;
    let end = y + h;
    while r < end
        invariant
            fb.wf(),
            fb.fits(old(buf)@.len() as int),
            end == y + h,
            end <= fb.height_spec(),
            x + w <= fb.width_spec(),
            y <= r <= end,
            painted(*fb, old(buf)@, buf@, x as int, x + w, y as int, r as int, color),
        decreases end - r,
    {
        let ghost before = buf@;
        draw_hori_line(fb, buf, x, r, w, color);
        assert forall|i: int| 0 <= i < buf@.len() implies #[trigger] buf@[i] == if in_span(
            *fb,
            x as int,
            x + w,
            y as int,
            r + 1,
            i,
        ) {
            channel(color, channel_of(*fb, i))
        } else {
            old(buf)@[i]
        } by {
            assert(buf@[i] == before[i] || in_span(*fb, x as int, x + w, r as int, r + 1, i));
        }
        r += 1;
    }
}

} // verus!
