//! The CYD's 320x240 RGB565 framebuffer and its conversion to the RGBA8888
//! frame that is shown on screen.
//!
//! The framebuffer is shared with the emulated firmware, which writes it;
//! the functions here read or fill a framebuffer handed to them. `Display`
//! keeps the "dirty" flag that decides when the frame is converted again.

use vstd::prelude::*;

pub mod colors;

verus! {

/// Display width in pixels.
pub const DISPLAY_WIDTH: usize = 320;

/// Display height in pixels.
pub const DISPLAY_HEIGHT: usize = 240;

/// Number of pixels in the framebuffer.
pub const FRAMEBUFFER_SIZE: usize = DISPLAY_WIDTH * DISPLAY_HEIGHT;

/// The 5-bit red channel of an RGB565 pixel.
pub open spec fn red5(p: u16) -> u8 {
    ((p >> 11u16) & 0x1Fu16) as u8
}

/// The 6-bit green channel of an RGB565 pixel.
pub open spec fn green6(p: u16) -> u8 {
    ((p >> 5u16) & 0x3Fu16) as u8
}

/// The 5-bit blue channel of an RGB565 pixel.
pub open spec fn blue5(p: u16) -> u8 {
    (p & 0x1Fu16) as u8
}

/// A 5-bit channel widened to 8 bits by repeating its top bits below it.
pub open spec fn expand5(c: u8) -> u8 {
    ((c << 3u8) | (c >> 2u8)) as u8
}

/// A 6-bit channel widened to 8 bits by repeating its top bits below it.
pub open spec fn expand6(c: u8) -> u8 {
    ((c << 2u8) | (c >> 4u8)) as u8
}

/// The RGBA8888 bytes of an RGB565 pixel (opaque alpha).
pub open spec fn rgba_of(p: u16) -> Seq<u8> {
    seq![expand5(red5(p)), expand6(green6(p)), expand5(blue5(p)), 255u8]
}

/// The RGB565 pixel with the given channels.
pub open spec fn rgb565(r: int, g: int, b: int) -> int {
    r * 2048 + g * 32 + b
}

/// The test pattern's pixel at (`x`, `y`): red grows to the right, green
/// downward, blue along the diagonal.
pub open spec fn pattern_pixel(x: int, y: int) -> int {
    rgb565(
        (x * 32) / (DISPLAY_WIDTH as int),
        (y * 64) / (DISPLAY_HEIGHT as int),
        ((x + y) * 32) / ((DISPLAY_WIDTH + DISPLAY_HEIGHT) as int),
    )
}

/// The channels of an RGB565 pixel: (red 0-31, green 0-63, blue 0-31).
pub fn rgb565_channels(p: u16) -> (c: (u8, u8, u8))
    ensures
        c == (red5(p), green6(p), blue5(p)),
        c.0 < 32,
        c.1 < 64,
        c.2 < 32,
{
    let r5 = ((p >> 11u16) & 0x1Fu16) as u8;
    let g6 = ((p >> 5u16) & 0x3Fu16) as u8;
    let b5 = (p & 0x1Fu16) as u8;
    assert(((p >> 11u16) & 0x1Fu16) < 32) by (bit_vector);
    assert(((p >> 5u16) & 0x3Fu16) < 64) by (bit_vector);
    assert((p & 0x1Fu16) < 32) by (bit_vector);
    (r5, g6, b5)
}

/// A 5-bit channel widened to 8 bits.
pub fn expand_5bit(c: u8) -> (e: u8)
    ensures
        e == expand5(c),
{
    (c << 3u8) | (c >> 2u8)
}

/// A 6-bit channel widened to 8 bits.
pub fn expand_6bit(c: u8) -> (e: u8)
    ensures
        e == expand6(c),
{
    (c << 2u8) | (c >> 4u8)
}

/// Converts the pixels of `fb` to RGBA8888 into the front of `frame`, four
/// bytes per pixel; the rest of `frame` is left as it was.
pub fn convert_frame(fb: &[u16], frame: &mut [u8])
    requires
        4 * fb@.len() <= old(frame)@.len(),
    ensures
        final(frame)@.len() == old(frame)@.len(),
        forall|i: int, k: int|
            0 <= i < fb@.len() && 0 <= k < 4 ==> #[trigger] final(frame)@[4 * i + k] == rgba_of(fb@[i])[k],
        forall|j: int| 4 * fb@.len() <= j < old(frame)@.len() ==> #[trigger] final(frame)@[j] == old(frame)@[j],
{
    let n = fb.len();
    let flen = frame.len();
    let mut i: usize = 0;
    while i < n
        invariant
            n == fb@.len(),
            flen == frame@.len(),
            i <= n,
            4 * n <= frame@.len(),
            frame@.len() == old(frame)@.len(),
            forall|a: int, k: int|
                0 <= a < i && 0 <= k < 4 ==> #[trigger] frame@[4 * a + k] == rgba_of(fb@[a])[k],
            forall|j: int| 4 * i <= j < frame@.len() ==> #[trigger] frame@[j] == old(frame)@[j],
        decreases n - i,
    {
        let pixel = fb[i];
        let (r5, g6, b5) = rgb565_channels(pixel);
        let r8 = expand_5bit(r5);
        let g8 = expand_6bit(g6);
        let b8 = expand_5bit(b5);
        let idx = i * 4;
        frame[idx] = r8;
        frame[idx + 1] = g8;
        frame[idx + 2] = b8;
        frame[idx + 3] = 255;
        proof {
            assert forall|a: int, k: int|
                0 <= a < i + 1 && 0 <= k < 4 implies #[trigger] frame@[4 * a + k] == rgba_of(fb@[a])[k] by {
                if a < i {
                    assert(4 * a + k < 4 * i);
                }
            }
        }
        i = i + 1;
    }
}

/// The RGB565 pixel with channels `r`, `g`, `b`.
pub fn encode_rgb565(r: u16, g: u16, b: u16) -> (p: u16)
    requires
        r < 32,
        g < 64,
        b < 32,
    ensures
        p == rgb565(r as int, g as int, b as int),
{
    assert(((r << 11u16) | (g << 5u16) | b) == r * 2048 + g * 32 + b) by (bit_vector)
        requires
            r < 32,
            g < 64,
            b < 32,
    ;
    (r << 11u16) | (g << 5u16) | b
}

/// Display state: whether the framebuffer has changed since it was last
/// shown.
pub struct Display {
    dirty: bool,
}

impl Display {
    /// Whether the frame must be converted and shown again.
    pub closed spec fn needs_render(&self) -> bool {
        self.dirty
    }

    /// A display whose first frame is still to be shown.
    pub fn new() -> (d: Self)
        ensures
            d.needs_render(),
    {
        Display { dirty: true }
    }

    /// Marks the display as needing a re-render.
    pub fn mark_dirty(&mut self)
        ensures
            final(self).needs_render(),
    {
        self.dirty = true;
    }

    /// Whether the display needs a re-render.
    pub fn is_dirty(&self) -> (r: bool)
        ensures
            r == self.needs_render(),
    {
        self.dirty
    }

    /// Converts `fb` into `frame` if the display is dirty, and returns
    /// whether it did; a clean display leaves `frame` as it was. The caller
    /// shows the frame and then calls `rendered`.
    pub fn render(&self, fb: &[u16], frame: &mut [u8]) -> (converted: bool)
        requires
            self.needs_render() ==> 4 * fb@.len() <= old(frame)@.len(),
        ensures
            converted == self.needs_render(),
            !converted ==> final(frame)@ == old(frame)@,
            final(frame)@.len() == old(frame)@.len(),
            converted ==> forall|i: int, k: int|
                0 <= i < fb@.len() && 0 <= k < 4 ==> #[trigger] final(frame)@[4 * i + k] == rgba_of(fb@[i])[k],
            forall|j: int| 4 * fb@.len() <= j < old(frame)@.len() ==> #[trigger] final(frame)@[j] == old(frame)@[j],
    {
        if !self.dirty {
            return false;
        }
        convert_frame(fb, frame);
        true
    }

    /// Sets every pixel of `fb` to `color`.
    pub fn fill(fb: &mut [u16], color: u16)
        ensures
            final(fb)@ == Seq::new(old(fb)@.len(), |i: int| color),
    {
        let n = fb.len();
        let mut i: usize = 0;
        while i < n
            invariant
                n == fb@.len(),
                n == old(fb)@.len(),
                i <= n,
                forall|j: int| 0 <= j < i ==> #[trigger] fb@[j] == color,
            decreases n - i,
        {
            fb[i] = color;
            i = i + 1;
        }
        assert(fb@ =~= Seq::new(old(fb)@.len(), |i: int| color));
    }

    /// Draws the colour-bar test pattern into the first `FRAMEBUFFER_SIZE`
    /// pixels of `fb`, row by row.
    pub fn test_pattern(fb: &mut [u16])
        requires
            old(fb)@.len() >= FRAMEBUFFER_SIZE,
        ensures
            final(fb)@.len() == old(fb)@.len(),
            forall|x: int, y: int|
                0 <= x < DISPLAY_WIDTH && 0 <= y < DISPLAY_HEIGHT ==> #[trigger] final(fb)@[y * 320 + x]
                    == pattern_pixel(x, y),
            forall|j: int| FRAMEBUFFER_SIZE <= j < old(fb)@.len() ==> #[trigger] final(fb)@[j] == old(fb)@[j],
    {
        let mut y: usize = 0;
        while y < DISPLAY_HEIGHT
            invariant
                y <= DISPLAY_HEIGHT,
                fb@.len() == old(fb)@.len(),
                old(fb)@.len() >= FRAMEBUFFER_SIZE,
                forall|xx: int, yy: int|
                    0 <= xx < DISPLAY_WIDTH && 0 <= yy < y ==> #[trigger] fb@[yy * 320 + xx] == pattern_pixel(xx, yy),
                forall|j: int| FRAMEBUFFER_SIZE <= j < old(fb)@.len() ==> #[trigger] fb@[j] == old(fb)@[j],
            decreases DISPLAY_HEIGHT - y,
        {
            let mut x: usize = 0;
            while x < DISPLAY_WIDTH
                invariant
                    x <= DISPLAY_WIDTH,
                    y < DISPLAY_HEIGHT,
                    fb@.len() == old(fb)@.len(),
                    old(fb)@.len() >= FRAMEBUFFER_SIZE,
                    forall|xx: int, yy: int|
                        0 <= xx < DISPLAY_WIDTH && 0 <= yy < y ==> #[trigger] fb@[yy * 320 + xx] == pattern_pixel(xx, yy),
                    forall|xx: int| 0 <= xx < x ==> #[trigger] fb@[y * 320 + xx] == pattern_pixel(xx, y as int),
                    forall|j: int| FRAMEBUFFER_SIZE <= j < old(fb)@.len() ==> #[trigger] fb@[j] == old(fb)@[j],
                decreases DISPLAY_WIDTH - x,
            {
                let r = ((x * 32) / DISPLAY_WIDTH) as u16;
                let g = ((y * 64) / DISPLAY_HEIGHT) as u16;
                let b = (((x + y) * 32) / (DISPLAY_WIDTH + DISPLAY_HEIGHT)) as u16;
                let color = encode_rgb565(r, g, b);
                let idx = y * DISPLAY_WIDTH + x;
                let ghost before = fb@;
                fb[idx] = color;
                proof {
                    assert forall|xx: int, yy: int|
                        0 <= xx < DISPLAY_WIDTH && 0 <= yy < y implies #[trigger] fb@[yy * 320 + xx] == pattern_pixel(xx, yy) by {
                        assert(yy * 320 + xx < y * 320) by (nonlinear_arith)
                            requires
                                0 <= xx < 320,
                                0 <= yy < y,
                        ;
                        assert(fb@[yy * 320 + xx] == before[yy * 320 + xx]);
                    }
                    assert forall|xx: int| 0 <= xx < x + 1 implies #[trigger] fb@[y * 320 + xx] == pattern_pixel(xx, y as int) by {
                        if xx < x {
                            assert(fb@[y * 320 + xx] == before[y * 320 + xx]);
                        }
                    }
                }
                x = x + 1;
            }
            proof {
                assert forall|xx: int, yy: int|
                    0 <= xx < DISPLAY_WIDTH && 0 <= yy < y + 1 implies #[trigger] fb@[yy * 320 + xx] == pattern_pixel(xx, yy) by {
                    if yy == y {
                        assert(fb@[y * 320 + xx] == pattern_pixel(xx, y as int));
                    }
                }
            }
            y = y + 1;
        }
    }

    /// Records that the current frame has been shown.
    pub fn rendered(&mut self)
        ensures
            !final(self).needs_render(),
    {
        self.dirty = false;
    }
}

/// Channel widening keeps the ends of the scale: black stays 0 and full
/// intensity (31 for red and blue, 63 for green) becomes 255.
pub proof fn law_expand_endpoints()
    ensures
        expand5(0) == 0,
        expand5(31) == 255,
        expand6(0) == 0,
        expand6(63) == 255,
{
    assert(((0u8 << 3u8) | (0u8 >> 2u8)) == 0u8) by (bit_vector);
    assert(((31u8 << 3u8) | (31u8 >> 2u8)) == 255u8) by (bit_vector);
    assert(((0u8 << 2u8) | (0u8 >> 4u8)) == 0u8) by (bit_vector);
    assert(((63u8 << 2u8) | (63u8 >> 4u8)) == 255u8) by (bit_vector);
}

/// Channel widening preserves order: a brighter channel stays brighter.
pub proof fn law_expand_monotone(a: u8, b: u8)
    requires
        a < b,
    ensures
        b < 32 ==> expand5(a) < expand5(b),
        b < 64 ==> expand6(a) < expand6(b),
{
    assert(b < 32 && a < b ==> ((a << 3u8) | (a >> 2u8)) < ((b << 3u8) | (b >> 2u8))) by (bit_vector);
    assert(b < 64 && a < b ==> ((a << 2u8) | (a >> 4u8)) < ((b << 2u8) | (b >> 4u8))) by (bit_vector);
}

/// Every converted pixel is opaque.
pub proof fn law_rgba_opaque(p: u16)
    ensures
        rgba_of(p).len() == 4,
        rgba_of(p)[3] == 255,
{
}

/// Splitting a pixel into channels undoes putting it together: the pixel
/// with channels (r, g, b) has exactly those channels.
pub proof fn law_channels_of_encoded(r: u16, g: u16, b: u16)
    requires
        r < 32,
        g < 64,
        b < 32,
    ensures
        red5((r * 2048 + g * 32 + b) as u16) == r,
        green6((r * 2048 + g * 32 + b) as u16) == g,
        blue5((r * 2048 + g * 32 + b) as u16) == b,
{
    assert(r < 32 && g < 64 && b < 32 ==> ((((r * 2048 + g * 32 + b) as u16) >> 11u16) & 0x1Fu16) == r)
        by (bit_vector);
    assert(r < 32 && g < 64 && b < 32 ==> ((((r * 2048 + g * 32 + b) as u16) >> 5u16) & 0x3Fu16) == g)
        by (bit_vector);
    assert(r < 32 && g < 64 && b < 32 ==> (((r * 2048 + g * 32 + b) as u16) & 0x1Fu16) == b)
        by (bit_vector);
}

/// The test pattern's channels stay in range: red and blue below 32, green
/// below 64, so the pattern is a valid RGB565 image whose red grows to the
/// right and whose green grows downward.
pub proof fn law_pattern_channels(x: int, y: int)
    requires
        0 <= x < DISPLAY_WIDTH,
        0 <= y < DISPLAY_HEIGHT,
    ensures
        0 <= (x * 32) / (DISPLAY_WIDTH as int) < 32,
        0 <= (y * 64) / (DISPLAY_HEIGHT as int) < 64,
        0 <= ((x + y) * 32) / ((DISPLAY_WIDTH + DISPLAY_HEIGHT) as int) < 32,
        0 <= pattern_pixel(x, y) <= u16::MAX,
{
    assert(0 <= (x * 32) / 320 < 32) by (nonlinear_arith)
        requires
            0 <= x < 320,
    ;
    assert(0 <= (y * 64) / 240 < 64) by (nonlinear_arith)
        requires
            0 <= y < 240,
    ;
    assert(0 <= ((x + y) * 32) / 560 < 32) by (nonlinear_arith)
        requires
            0 <= x < 320,
            0 <= y < 240,
    ;
}

} // verus!
