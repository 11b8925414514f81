use vstd::prelude::*;
use crate::bytes::{Parsed, ParseError, error_of, le_u16_of, be_u16_of, read_u8, read_le_u16, read_be_u16};

verus! {

/// A decoded image: 8-bit RGBA pixels, row by row, with the alpha channel
/// inverted from the file (0xFF is opaque).
#[derive(Debug, PartialEq, Default)]
pub struct Image {
    pub pixels: Vec<u8>,
    pub width: u16,
    pub height: u16,
    pub bits_per_pixel: u16,
    pub pixel_format: u16,
}

/// The mathematical value of an `Image`.
pub struct ImageView {
    pub pixels: Seq<u8>,
    pub width: u16,
    pub height: u16,
    pub bits_per_pixel: u16,
    pub pixel_format: u16,
}

impl View for Image {
    type V = ImageView;

    open spec fn view(&self) -> ImageView {
        ImageView {
            pixels: self.pixels@,
            width: self.width,
            height: self.height,
            bits_per_pixel: self.bits_per_pixel,
            pixel_format: self.pixel_format,
        }
    }
}

/// The header fields of an image.
#[derive(Clone, Copy)]
pub struct ImageHeader {
    pub pixel_format: u16,
    pub width: u16,
    pub height: u16,
    pub row_size: u16,
    pub bits_per_pixel: u16,
    pub palette_colors_count: u16,
    pub transparent_palette_color: u16,
}

/// The colour depths and pixel formats that the decoder supports: 16, 24 or
/// 32 bits of direct colour in one of six formats, or 1, 2, 4 or 8 bits of
/// palette index in format 0x64.
pub open spec fn supported_format(pixel_format: u16, bits_per_pixel: u16, palette_colors_count: u16) -> bool {
    ||| (bits_per_pixel == 16 || bits_per_pixel == 24 || bits_per_pixel == 32) && palette_colors_count == 0
        && (pixel_format == 0x08 || pixel_format == 0x13 || pixel_format == 0x1B || pixel_format == 0x1C
        || pixel_format == 0x10 || pixel_format == 0x09)
    ||| (bits_per_pixel == 1 || bits_per_pixel == 2 || bits_per_pixel == 4 || bits_per_pixel == 8)
        && palette_colors_count > 0 && pixel_format == 0x64
}

/// The header at the start of `s`: a signature (0x4D42), the pixel format,
/// then width, height, row size, colour depth, palette size and transparent
/// palette colour, each a little-endian `u16`. It is malformed where the
/// signature is wrong, the format is compressed (0x65) or 32-bit packed
/// (0xFFFF), the format is not supported, or the row size is not the number
/// of bytes that a row of pixels takes.
pub open spec fn spec_image_header(s: Seq<u8>) -> Parsed<ImageHeader> {
    if s.len() < 2 {
        Parsed::Fail
    } else if le_u16_of(s) != 0x4D42 {
        Parsed::Malformed
    } else if s.len() < 4 {
        Parsed::Fail
    } else if le_u16_of(s.skip(2)) == 0x65 || le_u16_of(s.skip(2)) == 0xFFFF {
        Parsed::Malformed
    } else if s.len() < 16 {
        Parsed::Fail
    } else {
        let h = ImageHeader {
            pixel_format: le_u16_of(s.skip(2)),
            width: le_u16_of(s.skip(4)),
            height: le_u16_of(s.skip(6)),
            row_size: le_u16_of(s.skip(8)),
            bits_per_pixel: le_u16_of(s.skip(10)),
            palette_colors_count: le_u16_of(s.skip(12)),
            transparent_palette_color: le_u16_of(s.skip(14)),
        };
        if !supported_format(h.pixel_format, h.bits_per_pixel, h.palette_colors_count) {
            Parsed::Malformed
        } else if h.bits_per_pixel * h.width > 0xFFFF {
            Parsed::Malformed
        } else if (h.bits_per_pixel * h.width + 7) / 8 != h.row_size {
            Parsed::Malformed
        } else {
            Parsed::Done(h, 16)
        }
    }
}

/// The alpha of palette colour `i`: opaque in the file (0xFF) for the
/// transparent colour (counted from 1; 0 means none), else 0.
pub open spec fn palette_alpha(h: ImageHeader, i: int) -> u8 {
    if h.transparent_palette_color != 0 && i == h.transparent_palette_color - 1 {
        0xFF
    } else {
        0x00
    }
}

/// The palette at the start of `s`: four bytes per colour, red, green,
/// blue and one that is skipped.
pub open spec fn spec_palette(h: ImageHeader, s: Seq<u8>) -> Option<Seq<(u8, u8, u8, u8)>> {
    if s.len() >= 4 * h.palette_colors_count {
        Some(Seq::new(h.palette_colors_count as nat, |i: int| (s[4 * i], s[4 * i + 1], s[4 * i + 2], palette_alpha(h, i))))
    } else {
        None
    }
}

/// Where pixel decoding stands: the position in the pixel data, the index
/// of the last packed byte read and that byte, and the pixels so far.
pub struct DecodeState {
    pub pos: nat,
    pub prev: int,
    pub val: u8,
    pub pixels: Seq<u8>,
}

/// The outcome of decoding some pixels.
pub enum Decoding {
    Going(DecodeState),
    Fail,
    Malformed,
}

/// Red, green, blue and file alpha of a 16-bit colour `rgba` in `pixel_format`,
/// with `alpha` the alpha read before it.
pub open spec fn spec_color16(pixel_format: u16, rgba: u16, alpha: u8) -> (u8, u8, u8, u8) {
    if pixel_format == 0x13 {
        (((rgba & 0x000F) << 4u16) as u8, (rgba & 0x00F0) as u8, ((rgba & 0x0F00) >> 4u16) as u8,
            ((rgba & 0xF000) >> 8u16) as u8)
    } else if pixel_format == 0x1C || pixel_format == 0x09 {
        (((rgba & 0xF800) >> 8u16) as u8, ((rgba & 0x07E0) >> 3u16) as u8, ((rgba & 0x001F) << 3u16) as u8, alpha)
    } else {
        (((rgba & 0x001F) << 3u16) as u8, ((rgba & 0x07E0) >> 3u16) as u8, ((rgba & 0xF800) >> 8u16) as u8, alpha)
    }
}

/// `st` with the pixel `(r, g, b, a)` added, alpha inverted.
pub open spec fn with_pixel(st: DecodeState, pos: nat, prev: int, val: u8, c: (u8, u8, u8, u8)) -> Decoding {
    Decoding::Going(DecodeState {
        pos: pos,
        prev: prev,
        val: val,
        pixels: st.pixels + seq![c.0, c.1, c.2, (0xFF - c.3) as u8],
    })
}

/// Decodes the pixel in column `x` from the pixel data `s`.
#[verifier::opaque]
pub open spec fn spec_pixel(h: ImageHeader, pal: Seq<(u8, u8, u8, u8)>, s: Seq<u8>, st: DecodeState, x: u16) -> Decoding {
    if h.palette_colors_count != 0 {
        if h.bits_per_pixel < 8 {
            let ppb = (8u16 / h.bits_per_pixel) as u16;
            let new_byte = (x / ppb) as int;
            if new_byte != st.prev && st.pos >= s.len() {
                Decoding::Fail
            } else {
                let (pos, prev, byte) = if new_byte != st.prev {
                    (st.pos + 1, new_byte, s[st.pos as int])
                } else {
                    (st.pos, st.prev, st.val)
                };
                let bit_mask = ((1u8 << h.bits_per_pixel) - 1) as u8;
                let bit_position = (8 - ((x % ppb) + 1) * h.bits_per_pixel) as u16;
                let color_id = (byte >> bit_position) & bit_mask;
                if color_id >= pal.len() {
                    Decoding::Malformed
                } else {
                    with_pixel(st, pos, prev, byte, pal[color_id as int])
                }
            }
        } else if st.pos >= s.len() {
            Decoding::Fail
        } else if s[st.pos as int] >= pal.len() {
            Decoding::Malformed
        } else {
            with_pixel(st, st.pos + 1, st.prev, st.val, pal[s[st.pos as int] as int])
        }
    } else if h.bits_per_pixel / 8 == 4 {
        if st.pos + 4 > s.len() {
            Decoding::Fail
        } else {
            let p = st.pos as int;
            with_pixel(st, st.pos + 4, st.prev, st.val, (s[p], s[p + 1], s[p + 2], s[p + 3]))
        }
    } else if h.bits_per_pixel / 8 == 3 {
        if st.pos + 3 > s.len() {
            Decoding::Fail
        } else {
            let p = st.pos as int;
            with_pixel(st, st.pos + 3, st.prev, st.val,
                spec_color16(h.pixel_format, be_u16_of(s.skip(p + 1)), s[p]))
        }
    } else if st.pos + 2 > s.len() {
        Decoding::Fail
    } else {
        with_pixel(st, st.pos + 2, st.prev, st.val,
            spec_color16(h.pixel_format, le_u16_of(s.skip(st.pos as int)), 0))
    }
}

/// Decodes the first `n` pixels of a row.
pub open spec fn spec_row(h: ImageHeader, pal: Seq<(u8, u8, u8, u8)>, s: Seq<u8>, st: DecodeState, n: nat) -> Decoding
    decreases n,
{
    if n == 0 {
        Decoding::Going(st)
    } else {
        match spec_row(h, pal, s, st, (n - 1) as nat) {
            Decoding::Going(st1) => spec_pixel(h, pal, s, st1, (n - 1) as u16),
            other => other,
        }
    }
}

/// Decodes the first `n` rows.
pub open spec fn spec_rows(h: ImageHeader, pal: Seq<(u8, u8, u8, u8)>, s: Seq<u8>, st: DecodeState, n: nat) -> Decoding
    decreases n,
{
    if n == 0 {
        Decoding::Going(st)
    } else {
        match spec_rows(h, pal, s, st, (n - 1) as nat) {
            Decoding::Going(st1) => spec_row(h, pal, s, st1, h.width as nat),
            other => other,
        }
    }
}

/// The image whose header is `h` and whose pixels decode to `d`, the
/// header taking `hn` bytes.
pub open spec fn finish_image(h: ImageHeader, hn: nat, d: Decoding) -> Parsed<ImageView> {
    match d {
        Decoding::Going(st) => Parsed::Done(ImageView {
            pixels: st.pixels,
            width: h.width,
            height: h.height,
            bits_per_pixel: h.bits_per_pixel,
            pixel_format: h.pixel_format,
        }, (hn + 4 * h.palette_colors_count + st.pos) as nat),
        Decoding::Fail => Parsed::Fail,
        Decoding::Malformed => Parsed::Malformed,
    }
}

/// An image at the start of `s`: its header, its palette, then its pixels.
pub open spec fn spec_image(s: Seq<u8>) -> Parsed<ImageView> {
    match spec_image_header(s) {
        Parsed::Done(h, hn) => {
            let s1 = s.skip(hn as int);
            match spec_palette(h, s1) {
                None => Parsed::Fail,
                Some(pal) => {
                    let s2 = s1.skip(4 * h.palette_colors_count);
                    let init = DecodeState { pos: 0, prev: -1, val: 0, pixels: Seq::empty() };
                    finish_image(h, hn, spec_rows(h, pal, s2, init, h.height as nat))
                },
            }
        },
        Parsed::Fail => Parsed::Fail,
        Parsed::Malformed => Parsed::Malformed,
    }
}


proof fn lemma_pixel_adds_four(h: ImageHeader, pal: Seq<(u8, u8, u8, u8)>, s: Seq<u8>, st: DecodeState, x: u16)
    ensures
        spec_pixel(h, pal, s, st, x) matches Decoding::Going(st2) ==> st2.pixels.len() == st.pixels.len() + 4,
{
    reveal(spec_pixel);
}

proof fn lemma_row_adds(h: ImageHeader, pal: Seq<(u8, u8, u8, u8)>, s: Seq<u8>, st: DecodeState, n: nat)
    ensures
        spec_row(h, pal, s, st, n) matches Decoding::Going(st2) ==> st2.pixels.len() == st.pixels.len() + 4 * n,
    decreases n,
{
    if n > 0 {
        lemma_row_adds(h, pal, s, st, (n - 1) as nat);
        if let Decoding::Going(st1) = spec_row(h, pal, s, st, (n - 1) as nat) {
            lemma_pixel_adds_four(h, pal, s, st1, (n - 1) as u16);
        }
    }
}

proof fn lemma_rows_add(h: ImageHeader, pal: Seq<(u8, u8, u8, u8)>, s: Seq<u8>, st: DecodeState, n: nat)
    ensures
        spec_rows(h, pal, s, st, n) matches Decoding::Going(st2) ==> st2.pixels.len() == st.pixels.len() + 4 * h.width * n,
    decreases n,
{
    let w = h.width as nat;
    if n == 0 {
        assert(4 * h.width * n == 0) by (nonlinear_arith)
            requires
                n == 0,
        ;
    } else {
        let m = (n - 1) as nat;
        lemma_rows_add(h, pal, s, st, m);
        if let Decoding::Going(st1) = spec_rows(h, pal, s, st, m) {
            lemma_row_adds(h, pal, s, st1, w);
            assert(4 * h.width * m + 4 * w == 4 * h.width * n) by (nonlinear_arith)
                requires
                    m + 1 == n,
                    w == h.width,
            ;
        }
    }
}

/// A decoded image holds four bytes, red, green, blue and alpha, for each
/// of its pixels.
pub proof fn law_image_pixels(s: Seq<u8>)
    ensures
        spec_image(s) matches Parsed::Done(v, _) ==> v.pixels.len() == 4 * v.width * v.height,
{
    if let Parsed::Done(h, hn) = spec_image_header(s) {
        let s1 = s.skip(hn as int);
        if let Some(pal) = spec_palette(h, s1) {
            let s2 = s1.skip(4 * h.palette_colors_count);
            let init = DecodeState { pos: 0, prev: -1, val: 0, pixels: Seq::empty() };
            lemma_rows_add(h, pal, s2, init, h.height as nat);
        }
    }
}

/// The channels of a 16-bit colour `v`. In formats 0x1C and 0x09 (5:6:5,
/// red first) red is the top five bits, green the middle six and blue the
/// low five; in the other 5:6:5 formats the top five bits are blue and the
/// low five red. In format 0x13 (4:4:4:4) red, green, blue and alpha are
/// the four nibbles from the lowest up. Each channel is scaled to eight bits
/// by shifting it up; the 5:6:5 formats keep the alpha read before the colour.
pub proof fn law_color16_channels(pixel_format: u16, v: u16, alpha: u8)
    ensures
        (pixel_format == 0x1C || pixel_format == 0x09) ==> spec_color16(pixel_format, v, alpha) == (
            (v / 2048 * 8) as u8,
            (v / 32 % 64 * 4) as u8,
            (v % 32 * 8) as u8,
            alpha,
        ),
        (pixel_format != 0x13 && pixel_format != 0x1C && pixel_format != 0x09) ==> spec_color16(
            pixel_format,
            v,
            alpha,
        ) == ((v % 32 * 8) as u8, (v / 32 % 64 * 4) as u8, (v / 2048 * 8) as u8, alpha),
        pixel_format == 0x13 ==> spec_color16(pixel_format, v, alpha) == (
            (v % 16 * 16) as u8,
            (v / 16 % 16 * 16) as u8,
            (v / 256 % 16 * 16) as u8,
            (v / 4096 * 16) as u8,
        ),
{
    assert((v & 0xF800) >> 8u16 == v / 2048 * 8) by (bit_vector);
    assert((v & 0x07E0) >> 3u16 == v / 32 % 64 * 4) by (bit_vector);
    assert((v & 0x001F) << 3u16 == v % 32 * 8) by (bit_vector);
    assert((v & 0x000F) << 4u16 == v % 16 * 16) by (bit_vector);
    assert(v & 0x00F0 == v / 16 % 16 * 16) by (bit_vector);
    assert((v & 0x0F00) >> 4u16 == v / 256 % 16 * 16) by (bit_vector);
    assert((v & 0xF000) >> 8u16 == v / 4096 * 16) by (bit_vector);
}

/// A pixel of a 16-bit image without a palette is read from the two bytes at
/// the position reached, low byte first; in formats 0x1C and 0x09 it adds
/// red, green and blue from the top, middle and low bits of that value and
/// an opaque alpha, and the position moves past the two bytes.
pub proof fn law_pixel_rgb565(
    h: ImageHeader,
    pal: Seq<(u8, u8, u8, u8)>,
    s: Seq<u8>,
    st: DecodeState,
    x: u16,
)
    requires
        h.palette_colors_count == 0,
        h.bits_per_pixel == 16,
        h.pixel_format == 0x1C || h.pixel_format == 0x09,
        st.pos + 2 <= s.len(),
    ensures
        ({
            let v = s[st.pos as int] as int + 256 * s[st.pos + 1int] as int;
            spec_pixel(h, pal, s, st, x) == Decoding::Going(DecodeState {
                pos: st.pos + 2,
                prev: st.prev,
                val: st.val,
                pixels: st.pixels + seq![(v / 2048 * 8) as u8, (v / 32 % 64 * 4) as u8, (v % 32 * 8) as u8, 0xFFu8],
            })
        }),
{
    reveal(spec_pixel);
    let v16 = le_u16_of(s.skip(st.pos as int));
    let v = s[st.pos as int] as int + 256 * s[st.pos + 1int] as int;
    assert(v16 == v);
    law_color16_channels(h.pixel_format, v16, 0);
    assert(st.pixels + seq![(v / 2048 * 8) as u8, (v / 32 % 64 * 4) as u8, (v % 32 * 8) as u8, 0xFFu8]
        =~= st.pixels + seq![(v16 / 2048 * 8) as u8, (v16 / 32 % 64 * 4) as u8, (v16 % 32 * 8) as u8, (0xFF - 0u8) as u8]);
}

/// How a pixel is read where its bytes are there. With a palette of eight
/// bits per pixel it is the palette colour that its byte names. Without one,
/// a 32-bit pixel is its four bytes, red, green, blue and alpha; a 24-bit
/// pixel is an alpha byte followed by a big-endian 16-bit colour; a 16-bit
/// pixel is a little-endian 16-bit colour with no alpha. The alpha stored is
/// 0xFF less the alpha read, and the position moves past the bytes read.
pub proof fn law_pixel_bytes(h: ImageHeader, pal: Seq<(u8, u8, u8, u8)>, s: Seq<u8>, st: DecodeState, x: u16)
    ensures
        ({
            let p = st.pos as int;
            let pushed = |pos: nat, c: (u8, u8, u8, u8)| Decoding::Going(DecodeState {
                pos: pos,
                prev: st.prev,
                val: st.val,
                pixels: st.pixels + seq![c.0, c.1, c.2, (0xFF - c.3) as u8],
            });
            &&& h.palette_colors_count != 0 && h.bits_per_pixel >= 8 && p < s.len() && s[p] < pal.len()
                ==> spec_pixel(h, pal, s, st, x) == pushed(st.pos + 1, pal[s[p] as int])
            &&& h.palette_colors_count == 0 && h.bits_per_pixel / 8 == 4 && p + 4 <= s.len()
                ==> spec_pixel(h, pal, s, st, x) == pushed(st.pos + 4, (s[p], s[p + 1], s[p + 2], s[p + 3]))
            &&& h.palette_colors_count == 0 && h.bits_per_pixel / 8 == 3 && p + 3 <= s.len()
                ==> spec_pixel(h, pal, s, st, x) == pushed(
                st.pos + 3,
                spec_color16(h.pixel_format, (256 * s[p + 1] as int + s[p + 2] as int) as u16, s[p]),
            )
            &&& h.palette_colors_count == 0 && h.bits_per_pixel / 8 != 4 && h.bits_per_pixel / 8 != 3 && p + 2
                <= s.len() ==> spec_pixel(h, pal, s, st, x) == pushed(
                st.pos + 2,
                spec_color16(h.pixel_format, (s[p] as int + 256 * s[p + 1] as int) as u16, 0),
            )
        }),
{
    reveal(spec_pixel);
}

/// A decoded image has the width, height, colour depth and pixel format of
/// its header: the little-endian `u16`s at bytes 4, 6, 10 and 2.
pub proof fn law_image_header(s: Seq<u8>)
    ensures
        spec_image(s) matches Parsed::Done(v, _) ==> {
            &&& s.len() >= 16
            &&& v.width == le_u16_of(s.skip(4))
            &&& v.height == le_u16_of(s.skip(6))
            &&& v.bits_per_pixel == le_u16_of(s.skip(10))
            &&& v.pixel_format == le_u16_of(s.skip(2))
        },
{
}

/// An image whose first two bytes, read as a little-endian `u16`, are not the
/// signature 0x4D42 is malformed.
pub proof fn law_image_signature(s: Seq<u8>)
    requires
        s.len() >= 2,
        le_u16_of(s) != 0x4D42,
    ensures
        spec_image(s) is Malformed,
{
}

proof fn lemma_row_stops(h: ImageHeader, pal: Seq<(u8, u8, u8, u8)>, s: Seq<u8>, st: DecodeState, n: nat, m: nat)
    requires
        n <= m,
        !(spec_row(h, pal, s, st, n) is Going),
    ensures
        spec_row(h, pal, s, st, m) == spec_row(h, pal, s, st, n),
    decreases m,
{
    if m > n {
        lemma_row_stops(h, pal, s, st, n, (m - 1) as nat);
    }
}

proof fn lemma_rows_stop(h: ImageHeader, pal: Seq<(u8, u8, u8, u8)>, s: Seq<u8>, st: DecodeState, n: nat, m: nat)
    requires
        n <= m,
        !(spec_rows(h, pal, s, st, n) is Going),
    ensures
        spec_rows(h, pal, s, st, m) == spec_rows(h, pal, s, st, n),
    decreases m,
{
    if m > n {
        lemma_rows_stop(h, pal, s, st, n, (m - 1) as nat);
    }
}

/// The outcome of decoding for a function that returns `Result<(), ParseError>`.
pub open spec fn decoding_error(d: Decoding) -> ParseError {
    match d {
        Decoding::Malformed => ParseError::Malformed,
        _ => ParseError::Incomplete,
    }
}

/// Where the pixel decoder stands in the input.
pub struct PixelCursor {
    pub pos: usize,
    pub prev: i32,
    pub val: u8,
}

/// The decoding state that a cursor at an absolute position stands for,
/// the pixel data starting at `base`.
pub open spec fn cursor_state(c: PixelCursor, base: usize, pixels: Seq<u8>) -> DecodeState {
    DecodeState { pos: (c.pos - base) as nat, prev: c.prev as int, val: c.val, pixels: pixels }
}

fn color16(pixel_format: u16, rgba: u16, alpha: u8) -> (r: (u8, u8, u8, u8))
    ensures
        r == spec_color16(pixel_format, rgba, alpha),
{
    if pixel_format == 0x13 {
        assert(((rgba & 0x000F) << 4u16) <= 0xFF && (rgba & 0x00F0) <= 0xFF && ((rgba & 0x0F00) >> 4u16) <= 0xFF
            && ((rgba & 0xF000) >> 8u16) <= 0xFF) by (bit_vector);
        (((rgba & 0x000F) << 4u16) as u8, (rgba & 0x00F0) as u8, ((rgba & 0x0F00) >> 4u16) as u8,
            ((rgba & 0xF000) >> 8u16) as u8)
    } else if pixel_format == 0x1C || pixel_format == 0x09 {
        assert(((rgba & 0xF800) >> 8u16) <= 0xFF && ((rgba & 0x07E0) >> 3u16) <= 0xFF && ((rgba & 0x001F) << 3u16) <= 0xFF) by (bit_vector);
        (((rgba & 0xF800) >> 8u16) as u8, ((rgba & 0x07E0) >> 3u16) as u8, ((rgba & 0x001F) << 3u16) as u8, alpha)
    } else {
        assert(((rgba & 0xF800) >> 8u16) <= 0xFF && ((rgba & 0x07E0) >> 3u16) <= 0xFF && ((rgba & 0x001F) << 3u16) <= 0xFF) by (bit_vector);
        (((rgba & 0x001F) << 3u16) as u8, ((rgba & 0x07E0) >> 3u16) as u8, ((rgba & 0xF800) >> 8u16) as u8, alpha)
    }
}

fn push_pixel(pixels: &mut Vec<u8>, c: (u8, u8, u8, u8))
    ensures
        final(pixels)@ == old(pixels)@ + seq![c.0, c.1, c.2, (0xFF - c.3) as u8],
{
    pixels.push(c.0);
    pixels.push(c.1);
    pixels.push(c.2);
    pixels.push(0xFF - c.3);
    assert(pixels@ =~= old(pixels)@ + seq![c.0, c.1, c.2, (0xFF - c.3) as u8]);
}

/// Decodes the pixel in column `x`, the pixel data starting at `base`.
fn decode_pixel(
    h: ImageHeader,
    palette: &Vec<(u8, u8, u8, u8)>,
    input: &[u8],
    base: usize,
    c: &mut PixelCursor,
    pixels: &mut Vec<u8>,
    x: u16,
) -> (r: Result<(), ParseError>)
    requires
        base <= old(c).pos <= input@.len(),
        supported_format(h.pixel_format, h.bits_per_pixel, h.palette_colors_count),
        palette@.len() == h.palette_colors_count,
    ensures
        match spec_pixel(h, palette@, input@.skip(base as int), cursor_state(*old(c), base, old(pixels)@), x) {
            Decoding::Going(st) => r is Ok && cursor_state(*final(c), base, final(pixels)@) == st
                && base <= final(c).pos <= input@.len(),
            other => r == Err::<(), ParseError>(decoding_error(other)),
        },
{
    let ghost s = input@.skip(base as int);
    let ghost st = cursor_state(*c, base, pixels@);
    reveal(spec_pixel);
    let bpp = h.bits_per_pixel;
    if h.palette_colors_count != 0 {
        if bpp < 8 {
            let ppb: u16 = 8 / bpp;
            let new_byte: i32 = (x / ppb) as i32;
            let byte: u8;
            if new_byte != c.prev {
                match read_u8(input, c.pos) {
                    Some(b) => {
                        assert(c.pos < input.len());
                        assert(s[st.pos as int] == input@[c.pos as int]);
                        c.prev = new_byte;
                        c.val = b;
                        c.pos = c.pos + 1;
                        byte = b;
                    },
                    None => {
                        return Err(ParseError::Incomplete);
                    },
                }
            } else {
                byte = c.val;
            }
            assert(bpp == 1 || bpp == 2 || bpp == 4);
            assert((1u8 << bpp) >= 1) by (bit_vector)
                requires bpp == 1 || bpp == 2 || bpp == 4;
            let bit_mask: u8 = (1u8 << bpp) - 1;
            assert((x % ppb) < ppb);
            assert(((x % ppb) + 1) * bpp <= 8) by (nonlinear_arith)
                requires (x % ppb) < ppb, ppb == 8u16 / bpp, bpp == 1 || bpp == 2 || bpp == 4;
            let bit_position: u16 = 8 - ((x % ppb) + 1) * bpp;
            let color_id: u8 = (byte >> bit_position) & bit_mask;
            if color_id as usize >= palette.len() {
                return Err(ParseError::Malformed);
            }
            let col = palette[color_id as usize];
            push_pixel(pixels, col);
            Ok(())
        } else {
            match read_u8(input, c.pos) {
                Some(color_id) => {
                    assert(c.pos < input.len());
                    assert(s[st.pos as int] == input@[c.pos as int]);
                    if color_id as usize >= palette.len() {
                        return Err(ParseError::Malformed);
                    }
                    c.pos = c.pos + 1;
                    let col = palette[color_id as usize];
                    push_pixel(pixels, col);
                    Ok(())
                },
                None => Err(ParseError::Incomplete),
            }
        }
    } else if bpp / 8 == 4 {
        if input.len() - c.pos < 4 {
            return Err(ParseError::Incomplete);
        }
        let p = c.pos;
        assert(s[st.pos as int] == input@[p as int] && s[st.pos + 1int] == input@[p + 1]
            && s[st.pos + 2int] == input@[p + 2] && s[st.pos + 3int] == input@[p + 3]);
        let col = (input[p], input[p + 1], input[p + 2], input[p + 3]);
        c.pos = p + 4;
        push_pixel(pixels, col);
        Ok(())
    } else if bpp / 8 == 3 {
        if input.len() - c.pos < 3 {
            return Err(ParseError::Incomplete);
        }
        let p = c.pos;
        let alpha = input[p];
        let rgba = match read_be_u16(input, p + 1) {
            Some(v) => v,
            None => {
                return Err(ParseError::Incomplete);
            },
        };
        assert(s[st.pos as int] == input@[p as int]);
        assert(s.skip(st.pos + 1int) =~= input@.skip(p + 1));
        let col = color16(h.pixel_format, rgba, alpha);
        c.pos = p + 3;
        push_pixel(pixels, col);
        Ok(())
    } else {
        let p = c.pos;
        let rgba = match read_le_u16(input, p) {
            Some(v) => v,
            None => {
                return Err(ParseError::Incomplete);
            },
        };
        assert(input.len() - p >= 2);
        assert(s.skip(st.pos as int) =~= input@.skip(p as int));
        let col = color16(h.pixel_format, rgba, 0);
        c.pos = p + 2;
        push_pixel(pixels, col);
        Ok(())
    }
}


/// Reads the header of an image at `pos`.
fn parse_image_header(input: &[u8], pos: usize) -> (r: Result<ImageHeader, ParseError>)
    requires
        pos <= input@.len(),
    ensures
        match spec_image_header(input@.skip(pos as int)) {
            Parsed::Done(h, n) => r == Ok::<ImageHeader, ParseError>(h) && n == 16,
            other => r == Err::<ImageHeader, ParseError>(error_of(other)),
        },
{
    let ghost s = input@.skip(pos as int);
    let signature = match read_le_u16(input, pos) {
        Some(v) => v,
        None => {
            return Err(ParseError::Incomplete);
        },
    };
    if signature != 0x4D42 {
        return Err(ParseError::Malformed);
    }
    assert(input.len() - pos >= 2);
    assert(s.skip(2) =~= input@.skip(pos + 2));
    let pixel_format = match read_le_u16(input, pos + 2) {
        Some(v) => v,
        None => {
            return Err(ParseError::Incomplete);
        },
    };
    if pixel_format == 0x65 || pixel_format == 0xFFFF {
        return Err(ParseError::Malformed);
    }
    if input.len() - pos < 16 {
        return Err(ParseError::Incomplete);
    }
    assert(s.skip(4) =~= input@.skip(pos + 4));
    assert(s.skip(6) =~= input@.skip(pos + 6));
    assert(s.skip(8) =~= input@.skip(pos + 8));
    assert(s.skip(10) =~= input@.skip(pos + 10));
    assert(s.skip(12) =~= input@.skip(pos + 12));
    assert(s.skip(14) =~= input@.skip(pos + 14));
    let width = match read_le_u16(input, pos + 4) { Some(v) => v, None => { return Err(ParseError::Incomplete); } };
    let height = match read_le_u16(input, pos + 6) { Some(v) => v, None => { return Err(ParseError::Incomplete); } };
    let row_size = match read_le_u16(input, pos + 8) { Some(v) => v, None => { return Err(ParseError::Incomplete); } };
    let bits_per_pixel = match read_le_u16(input, pos + 10) { Some(v) => v, None => { return Err(ParseError::Incomplete); } };
    let palette_colors_count = match read_le_u16(input, pos + 12) { Some(v) => v, None => { return Err(ParseError::Incomplete); } };
    let transparent_palette_color = match read_le_u16(input, pos + 14) { Some(v) => v, None => { return Err(ParseError::Incomplete); } };
    let supported = (bits_per_pixel == 16 || bits_per_pixel == 24 || bits_per_pixel == 32) && palette_colors_count == 0
        && (pixel_format == 0x08 || pixel_format == 0x13 || pixel_format == 0x1B || pixel_format == 0x1C
        || pixel_format == 0x10 || pixel_format == 0x09)
        || (bits_per_pixel == 1 || bits_per_pixel == 2 || bits_per_pixel == 4 || bits_per_pixel == 8)
        && palette_colors_count > 0 && pixel_format == 0x64;
    if !supported {
        return Err(ParseError::Malformed);
    }
    let bits = match bits_per_pixel.checked_mul(width) {
        Some(v) => v,
        None => {
            return Err(ParseError::Malformed);
        },
    };
    if (bits as u32 + 7) / 8 != row_size as u32 {
        return Err(ParseError::Malformed);
    }
    Ok(ImageHeader {
        pixel_format,
        width,
        height,
        row_size,
        bits_per_pixel,
        palette_colors_count,
        transparent_palette_color,
    })
}

/// Reads the palette of an image at `pos`.
fn parse_palette(h: ImageHeader, input: &[u8], pos: usize) -> (r: Result<Vec<(u8, u8, u8, u8)>, ParseError>)
    requires
        pos <= input@.len(),
    ensures
        match spec_palette(h, input@.skip(pos as int)) {
            Some(pal) => r matches Ok(v) && v@ == pal,
            None => r == Err::<Vec<(u8, u8, u8, u8)>, ParseError>(ParseError::Incomplete),
        },
{
    let ghost s = input@.skip(pos as int);
    let count = h.palette_colors_count;
    if input.len() - pos < 4 * (count as usize) {
        return Err(ParseError::Incomplete);
    }
    let mut palette: Vec<(u8, u8, u8, u8)> = Vec::new();
    let mut i: u16 = 0;
    while i < count
        invariant
            i <= count,
            count == h.palette_colors_count,
            input.len() - pos >= 4 * (count as usize),
            s == input@.skip(pos as int),
            palette@.len() == i,
            forall|j: int| 0 <= j < i ==> #[trigger] palette@[j] == (s[4 * j], s[4 * j + 1], s[4 * j + 2], palette_alpha(h, j)),
        decreases count - i,
    {
        let p = pos + 4 * (i as usize);
        let red = input[p];
        let green = input[p + 1];
        let blue = input[p + 2];
        let alpha: u8 = if h.transparent_palette_color != 0 && i == h.transparent_palette_color - 1 {
            0xFF
        } else {
            0x00
        };
        assert(s[4 * i as int] == red && s[4 * i + 1] == green && s[4 * i + 2] == blue);
        palette.push((red, green, blue, alpha));
        i = i + 1;
    }
    assert(palette@ =~= spec_palette(h, s).unwrap());
    Ok(palette)
}

/// Decodes the pixels of one row.
fn decode_row(
    h: ImageHeader,
    palette: &Vec<(u8, u8, u8, u8)>,
    input: &[u8],
    base: usize,
    c: &mut PixelCursor,
    pixels: &mut Vec<u8>,
) -> (r: Result<(), ParseError>)
    requires
        base <= old(c).pos <= input@.len(),
        supported_format(h.pixel_format, h.bits_per_pixel, h.palette_colors_count),
        palette@.len() == h.palette_colors_count,
    ensures
        match spec_row(h, palette@, input@.skip(base as int), cursor_state(*old(c), base, old(pixels)@), h.width as nat) {
            Decoding::Going(st) => r is Ok && cursor_state(*final(c), base, final(pixels)@) == st
                && base <= final(c).pos <= input@.len(),
            other => r == Err::<(), ParseError>(decoding_error(other)),
        },
{
    let ghost s = input@.skip(base as int);
    let ghost st0 = cursor_state(*c, base, pixels@);
    let mut x: u16 = 0;
    while x < h.width
        invariant
            x <= h.width,
            base <= c.pos <= input@.len(),
            s == input@.skip(base as int),
            supported_format(h.pixel_format, h.bits_per_pixel, h.palette_colors_count),
            palette@.len() == h.palette_colors_count,
            spec_row(h, palette@, s, st0, x as nat) == Decoding::Going(cursor_state(*c, base, pixels@)),
            st0 == cursor_state(*old(c), base, old(pixels)@),
        decreases h.width - x,
    {
        let ghost pre = cursor_state(*c, base, pixels@);
        assert(spec_row(h, palette@, s, st0, (x + 1) as nat) == spec_pixel(h, palette@, s, pre, x));
        let r = decode_pixel(h, palette, input, base, c, pixels, x);
        if r.is_err() {
            proof {
                lemma_row_stops(h, palette@, s, st0, (x + 1) as nat, h.width as nat);
            }
            return r;
        }
        x = x + 1;
    }
    Ok(())
}

/// Reads an image at `pos`: the image and the position after it.
pub fn parse_image(input: &[u8], pos: usize) -> (r: Result<(Image, usize), ParseError>)
    requires
        pos <= input@.len(),
    ensures
        match spec_image(input@.skip(pos as int)) {
            Parsed::Done(v, n) => r matches Ok((img, rp)) && img@ == v && rp == pos + n,
            other => r == Err::<(Image, usize), ParseError>(error_of(other)),
        },
{
    let ghost s = input@.skip(pos as int);
    let h = match parse_image_header(input, pos) {
        Ok(h) => h,
        Err(e) => {
            return Err(e);
        },
    };
    assert(input.len() - pos >= 16);
    let p1 = pos + 16;
    assert(s.skip(16) =~= input@.skip(p1 as int));
    let palette = match parse_palette(h, input, p1) {
        Ok(v) => v,
        Err(e) => {
            return Err(e);
        },
    };
    let base = p1 + 4 * (h.palette_colors_count as usize);
    let ghost s2 = input@.skip(base as int);
    assert(s.skip(16).skip(4 * h.palette_colors_count) =~= s2);
    let mut c = PixelCursor { pos: base, prev: -1, val: 0 };
    let mut pixels: Vec<u8> = Vec::new();
    let ghost init = DecodeState { pos: 0, prev: -1, val: 0, pixels: Seq::empty() };
    assert(cursor_state(c, base, pixels@) == init);
    let mut y: u16 = 0;
    while y < h.height
        invariant
            y <= h.height,
            base <= c.pos <= input@.len(),
            s2 == input@.skip(base as int),
            supported_format(h.pixel_format, h.bits_per_pixel, h.palette_colors_count),
            palette@.len() == h.palette_colors_count,
            spec_rows(h, palette@, s2, init, y as nat) == Decoding::Going(cursor_state(c, base, pixels@)),
            s == input@.skip(pos as int),
            spec_image_header(s) == Parsed::Done(h, 16),
            spec_palette(h, s.skip(16)) == Some(palette@),
            s.skip(16).skip(4 * h.palette_colors_count) == s2,
            base == pos + 16 + 4 * h.palette_colors_count,
            init == (DecodeState { pos: 0, prev: -1, val: 0, pixels: Seq::empty() }),
        decreases h.height - y,
    {
        let ghost pre = cursor_state(c, base, pixels@);
        assert(spec_rows(h, palette@, s2, init, (y + 1) as nat) == spec_row(h, palette@, s2, pre, h.width as nat));
        if let Err(e) = decode_row(h, &palette, input, base, &mut c, &mut pixels) {
            proof {
                lemma_rows_stop(h, palette@, s2, init, (y + 1) as nat, h.height as nat);
            }
            return Err(e);
        }
        y = y + 1;
    }
    let end = c.pos;
    Ok((
        Image {
            pixels,
            width: h.width,
            height: h.height,
            bits_per_pixel: h.bits_per_pixel,
            pixel_format: h.pixel_format,
        },
        end,
    ))
}

/// Reads an image at `pos`, where the input is known to hold a supported
/// image; see `parse_image`.
pub fn image_parse(input: &[u8], pos: usize) -> (r: Result<(Image, usize), ParseError>)
    requires
        pos <= input@.len(),
        !spec_image(input@.skip(pos as int)).is_malformed(),
    ensures
        match spec_image(input@.skip(pos as int)) {
            Parsed::Done(v, n) => r matches Ok((img, rp)) && img@ == v && rp == pos + n,
            _ => r == Err::<(Image, usize), ParseError>(ParseError::Incomplete),
        },
{
    parse_image(input, pos)
}

} // verus!
