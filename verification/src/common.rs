use vstd::prelude::*;
use crate::image::Image;

verus! {

/// The index of an image of the watchface.
#[derive(Debug, PartialEq, Eq, Default, Clone, Copy)]
pub struct ImgId(pub u32);

impl View for ImgId {
    type V = ImgId;

    open spec fn view(&self) -> ImgId {
        *self
    }
}

/// The alignments that a number can have in its rectangle. The number of
/// each is given by `AlignmentInternal::value`.
#[derive(Debug, PartialEq, Eq, Clone, Copy)]
pub enum AlignmentInternal {
    Unknown,
    Left,
    Right,
    HCenter,
    Top,
    Bottom,
    VCenter,
    TopLeft,
    BottomLeft,
    CenterLeft,
    TopRight,
    BottomRight,
    CenterRight,
    TopCenter,
    BottomCenter,
    Center,
}

impl AlignmentInternal {
    /// The number of the alignment: bit 0x02 for left, 0x04 for right, 0x08
    /// for horizontal centre, 0x10 for top, 0x20 for bottom, 0x40 for
    /// vertical centre, combined.
    pub open spec fn spec_value(self) -> u8 {
        match self {
            AlignmentInternal::Unknown => 0,
            AlignmentInternal::Left => 2,
            AlignmentInternal::Right => 4,
            AlignmentInternal::HCenter => 8,
            AlignmentInternal::Top => 16,
            AlignmentInternal::Bottom => 32,
            AlignmentInternal::VCenter => 64,
            AlignmentInternal::TopLeft => 18,
            AlignmentInternal::BottomLeft => 34,
            AlignmentInternal::CenterLeft => 66,
            AlignmentInternal::TopRight => 20,
            AlignmentInternal::BottomRight => 36,
            AlignmentInternal::CenterRight => 68,
            AlignmentInternal::TopCenter => 24,
            AlignmentInternal::BottomCenter => 40,
            AlignmentInternal::Center => 72,
        }
    }

    /// See `spec_value`.
    pub fn value(self) -> (r: u8)
        ensures
            r == self.spec_value(),
    {
        match self {
            AlignmentInternal::Unknown => 0,
            AlignmentInternal::Left => 2,
            AlignmentInternal::Right => 4,
            AlignmentInternal::HCenter => 8,
            AlignmentInternal::Top => 16,
            AlignmentInternal::Bottom => 32,
            AlignmentInternal::VCenter => 64,
            AlignmentInternal::TopLeft => 18,
            AlignmentInternal::BottomLeft => 34,
            AlignmentInternal::CenterLeft => 66,
            AlignmentInternal::TopRight => 20,
            AlignmentInternal::BottomRight => 36,
            AlignmentInternal::CenterRight => 68,
            AlignmentInternal::TopCenter => 24,
            AlignmentInternal::BottomCenter => 40,
            AlignmentInternal::Center => 72,
        }
    }
}

impl Default for AlignmentInternal {
    fn default() -> (r: Self)
        ensures
            r == AlignmentInternal::Center,
    {
        AlignmentInternal::Center
    }
}

/// The alignment of a number: one of the known alignments, or the value 0
/// that some watchfaces hold.
#[derive(Debug, PartialEq, Eq)]
pub enum Alignment {
    Unknown,
    Valid(AlignmentInternal),
}

impl View for Alignment {
    type V = Alignment;

    open spec fn view(&self) -> Alignment {
        *self
    }
}

impl Default for Alignment {
    fn default() -> (r: Self)
        ensures
            r == Alignment::Valid(AlignmentInternal::Center),
    {
        Alignment::Valid(AlignmentInternal::Center)
    }
}

/// The number of an alignment.
pub open spec fn alignment_number(a: Alignment) -> i64 {
    match a {
        Alignment::Unknown => 0,
        Alignment::Valid(v) => v.spec_value() as i64,
    }
}

/// The alignment of the number `v`, where it is the number of one: 0 is
/// `Unknown`, the number of a known alignment is that alignment.
pub open spec fn alignment_of(v: i64) -> Option<Alignment> {
    if v == 0 {
        Some(Alignment::Unknown)
    } else if v == 2 {
        Some(Alignment::Valid(AlignmentInternal::Left))
    } else if v == 4 {
        Some(Alignment::Valid(AlignmentInternal::Right))
    } else if v == 8 {
        Some(Alignment::Valid(AlignmentInternal::HCenter))
    } else if v == 16 {
        Some(Alignment::Valid(AlignmentInternal::Top))
    } else if v == 32 {
        Some(Alignment::Valid(AlignmentInternal::Bottom))
    } else if v == 64 {
        Some(Alignment::Valid(AlignmentInternal::VCenter))
    } else if v == 18 {
        Some(Alignment::Valid(AlignmentInternal::TopLeft))
    } else if v == 34 {
        Some(Alignment::Valid(AlignmentInternal::BottomLeft))
    } else if v == 66 {
        Some(Alignment::Valid(AlignmentInternal::CenterLeft))
    } else if v == 20 {
        Some(Alignment::Valid(AlignmentInternal::TopRight))
    } else if v == 36 {
        Some(Alignment::Valid(AlignmentInternal::BottomRight))
    } else if v == 68 {
        Some(Alignment::Valid(AlignmentInternal::CenterRight))
    } else if v == 24 {
        Some(Alignment::Valid(AlignmentInternal::TopCenter))
    } else if v == 40 {
        Some(Alignment::Valid(AlignmentInternal::BottomCenter))
    } else if v == 72 {
        Some(Alignment::Valid(AlignmentInternal::Center))
    } else {
        None
    }
}

impl From<Alignment> for i64 {
    fn from(v: Alignment) -> (r: i64) {
        match v {
            Alignment::Unknown => 0,
            Alignment::Valid(v) => v.value() as i64,
        }
    }
}

impl vstd::std_specs::convert::FromSpecImpl<Alignment> for i64 {
    open spec fn obeys_from_spec() -> bool {
        true
    }

    open spec fn from_spec(v: Alignment) -> i64 {
        alignment_number(v)
    }
}

impl TryFrom<i64> for Alignment {
    type Error = ();

    fn try_from(v: i64) -> (r: Result<Self, Self::Error>) {
        if v == 0 {
            Ok(Alignment::Unknown)
        } else if v == 2 {
            Ok(Alignment::Valid(AlignmentInternal::Left))
        } else if v == 4 {
            Ok(Alignment::Valid(AlignmentInternal::Right))
        } else if v == 8 {
            Ok(Alignment::Valid(AlignmentInternal::HCenter))
        } else if v == 16 {
            Ok(Alignment::Valid(AlignmentInternal::Top))
        } else if v == 32 {
            Ok(Alignment::Valid(AlignmentInternal::Bottom))
        } else if v == 64 {
            Ok(Alignment::Valid(AlignmentInternal::VCenter))
        } else if v == 18 {
            Ok(Alignment::Valid(AlignmentInternal::TopLeft))
        } else if v == 34 {
            Ok(Alignment::Valid(AlignmentInternal::BottomLeft))
        } else if v == 66 {
            Ok(Alignment::Valid(AlignmentInternal::CenterLeft))
        } else if v == 20 {
            Ok(Alignment::Valid(AlignmentInternal::TopRight))
        } else if v == 36 {
            Ok(Alignment::Valid(AlignmentInternal::BottomRight))
        } else if v == 68 {
            Ok(Alignment::Valid(AlignmentInternal::CenterRight))
        } else if v == 24 {
            Ok(Alignment::Valid(AlignmentInternal::TopCenter))
        } else if v == 40 {
            Ok(Alignment::Valid(AlignmentInternal::BottomCenter))
        } else if v == 72 {
            Ok(Alignment::Valid(AlignmentInternal::Center))
        } else {
            Err(())
        }
    }
}

impl vstd::std_specs::convert::TryFromSpecImpl<i64> for Alignment {
    open spec fn obeys_try_from_spec() -> bool {
        true
    }

    open spec fn try_from_spec(v: i64) -> Result<Self, ()> {
        match alignment_of(v) {
            Some(a) => Ok(a),
            None => Err(()),
        }
    }
}

/// The alignment that a number names comes back from its number.
pub proof fn law_alignment_number_roundtrip(v: i64)
    ensures
        alignment_of(v) matches Some(a) ==> alignment_number(a) == v,
{
}

/// Every alignment but `Valid(Unknown)` comes back from its number; that
/// one shares the number 0 with `Unknown`, which is what the number gives.
pub proof fn law_alignment_roundtrip(a: Alignment)
    ensures
        a != Alignment::Valid(AlignmentInternal::Unknown) ==> alignment_of(alignment_number(a)) == Some(a),
        alignment_of(alignment_number(Alignment::Valid(AlignmentInternal::Unknown))) == Some(Alignment::Unknown),
{
}

/// A colour: red, green, blue and alpha.
#[derive(Debug, PartialEq, Eq, Default)]
pub struct Color(pub u8, pub u8, pub u8, pub u8);

impl View for Color {
    type V = Color;

    open spec fn view(&self) -> Color {
        *self
    }
}

/// The colour that the number `n` holds: the four bytes of its low 32 bits,
/// most significant first, with leading zero bytes dropped; where bytes were
/// dropped, green and blue are filled with 0 and alpha with 0xFF. So 0xRRGGBB
/// is an opaque colour and 0xRRGGBBAA one with its own alpha.
pub open spec fn color_of(n: i64) -> Color {
    let b0 = (n >> 24u64) as u8;
    let b1 = (n >> 16u64) as u8;
    let b2 = (n >> 8u64) as u8;
    let b3 = n as u8;
    if b0 != 0 {
        Color(b0, b1, b2, b3)
    } else if b1 != 0 {
        Color(b1, b2, b3, 255)
    } else if b2 != 0 {
        Color(b2, b3, 0, 255)
    } else if b3 != 0 {
        Color(b3, 0, 0, 255)
    } else {
        Color(0, 0, 0, 255)
    }
}

impl Color {
    /// See `color_of`.
    pub fn from_number(n: i64) -> (r: Color)
        ensures
            r == color_of(n),
    {
        let b0 = (n >> 24u64) as u8;
        let b1 = (n >> 16u64) as u8;
        let b2 = (n >> 8u64) as u8;
        let b3 = n as u8;
        if b0 != 0 {
            Color(b0, b1, b2, b3)
        } else if b1 != 0 {
            Color(b1, b2, b3, 255)
        } else if b2 != 0 {
            Color(b2, b3, 0, 255)
        } else if b3 != 0 {
            Color(b3, 0, 0, 255)
        } else {
            Color(0, 0, 0, 255)
        }
    }
}

/// The character of the hexadecimal digit `n`, with upper-case letters.
pub open spec fn hex_digit(n: u8) -> u8 {
    if n < 10 {
        (48 + n) as u8
    } else {
        (55 + n) as u8
    }
}

/// The byte `v` in hexadecimal: two digits, or one where `short` holds and
/// one is enough.
pub open spec fn hex_byte(v: u8, short: bool) -> Seq<u8> {
    if short && v < 16 {
        seq![hex_digit(v)]
    } else {
        seq![hex_digit(v / 16), hex_digit(v % 16)]
    }
}

/// The red, green, blue and alpha bytes of `c`.
pub open spec fn color_bytes(c: Color) -> Seq<u8> {
    seq![c.0, c.1, c.2, c.3]
}

/// The first of the bytes `vals`, from the `i`-th on, that is not 0; 4
/// where there is none.
pub open spec fn first_nonzero(vals: Seq<u8>, i: nat) -> nat
    decreases 4 - i,
{
    if i >= 4 {
        4
    } else if vals[i as int] != 0 {
        i
    } else {
        first_nonzero(vals, i + 1)
    }
}

/// The digits written for the `i`-th of the bytes `vals`, where `s` is the
/// first that is not 0: none before it; at it, one digit where the byte is at
/// most 16 and one is enough; after it two, but none for an alpha of 0xFF.
pub open spec fn hex_piece(vals: Seq<u8>, s: nat, i: nat) -> Seq<u8> {
    if i < s {
        Seq::empty()
    } else if i == s && vals[i as int] <= 16 {
        hex_byte(vals[i as int], true)
    } else if i != 3 || vals[i as int] != 255 {
        hex_byte(vals[i as int], false)
    } else {
        Seq::empty()
    }
}

/// The digits written for the first `i` of the bytes `vals`.
pub open spec fn hex_pieces(vals: Seq<u8>, s: nat, i: nat) -> Seq<u8>
    decreases i,
{
    if i == 0 {
        Seq::empty()
    } else {
        hex_pieces(vals, s, (i - 1) as nat) + hex_piece(vals, s, (i - 1) as nat)
    }
}

/// The text of the colour `c` in a watchface description: "0x" and its bytes
/// in hexadecimal from the first that is not 0, with an alpha of 0xFF left
/// out; "0x0" where no digit is left.
pub open spec fn color_hex(c: Color) -> Seq<u8> {
    let body = hex_pieces(color_bytes(c), first_nonzero(color_bytes(c), 0), 4);
    seq![48u8, 120u8] + if body.len() == 0 {
        seq![48u8]
    } else {
        body
    }
}

/// The upper-case hexadecimal digits of `n`, most significant first, without
/// leading zeros (one digit for 0).
pub open spec fn hex_text_of(n: nat) -> Seq<u8>
    decreases n,
{
    if n < 16 {
        seq![hex_digit(n as u8)]
    } else {
        hex_text_of(n / 16) + seq![hex_digit((n % 16) as u8)]
    }
}

proof fn lemma_hex_shift(m: nat, b: nat)
    requires
        m >= 1,
        b < 256,
    ensures
        hex_text_of(m * 256 + b) == hex_text_of(m) + hex_byte(b as u8, false),
{
    let n = m * 256 + b;
    assert(n / 16 == m * 16 + b / 16 && n % 16 == b % 16 && n >= 16);
    let h = n / 16;
    assert(h / 16 == m && h % 16 == b / 16 && h >= 16);
    assert(hex_text_of(h) == hex_text_of(m) + seq![hex_digit((b / 16) as u8)]);
    assert(hex_text_of(n) == hex_text_of(h) + seq![hex_digit((b % 16) as u8)]);
    assert((b as u8) / 16 == (b / 16) as u8 && (b as u8) % 16 == (b % 16) as u8);
    assert(hex_text_of(n) =~= hex_text_of(m) + hex_byte(b as u8, false));
}

/// The text of a colour read from a number from 0x10000 to 0xFFFFFF (an
/// opaque colour whose red byte is not 0) is "0x" and the number in
/// upper-case hexadecimal.
pub proof fn law_color_text_of_number(n: i64)
    requires
        0x10000 <= n <= 0xFFFFFF,
    ensures
        color_hex(color_of(n)) == seq![48u8, 120u8] + hex_text_of(n as nat),
{
    let b0 = (n >> 24u64) as u8;
    let b1 = (n >> 16u64) as u8;
    let b2 = (n >> 8u64) as u8;
    let b3 = n as u8;
    assert(b0 == 0 && b1 != 0 && n == b1 * 65536 + b2 * 256 + b3) by (bit_vector)
        requires
            0x10000 <= n <= 0xFFFFFF,
            b0 == (n >> 24u64) as u8,
            b1 == (n >> 16u64) as u8,
            b2 == (n >> 8u64) as u8,
            b3 == n as u8,
    ;
    let c = color_of(n);
    assert(c == Color(b1, b2, b3, 255));
    let vals = color_bytes(c);
    assert(first_nonzero(vals, 0) == 0);
    let body = hex_pieces(vals, 0, 4);
    assert(hex_pieces(vals, 0, 0) =~= Seq::<u8>::empty());
    assert(hex_pieces(vals, 0, 1) =~= hex_piece(vals, 0, 0));
    assert(hex_piece(vals, 0, 1) == hex_byte(b2, false));
    assert(hex_piece(vals, 0, 2) == hex_byte(b3, false));
    assert(hex_piece(vals, 0, 3) =~= Seq::<u8>::empty());
    assert(hex_pieces(vals, 0, 2) == hex_pieces(vals, 0, 1) + hex_piece(vals, 0, 1));
    assert(hex_pieces(vals, 0, 3) == hex_pieces(vals, 0, 2) + hex_piece(vals, 0, 2));
    assert(hex_pieces(vals, 0, 4) == hex_pieces(vals, 0, 3) + hex_piece(vals, 0, 3));
    assert(body =~= hex_piece(vals, 0, 0) + hex_byte(b2, false) + hex_byte(b3, false));
    // the first byte, at most 16 or not, is written as its own digits
    if b1 < 16 {
        assert(hex_piece(vals, 0, 0) =~= hex_text_of(b1 as nat));
    } else {
        assert(hex_text_of(b1 as nat) == hex_text_of((b1 / 16) as nat) + seq![hex_digit(((b1 as nat) % 16) as u8)]);
        assert(hex_text_of((b1 / 16) as nat) == seq![hex_digit(((b1 as nat) / 16) as u8)]);
        assert(hex_piece(vals, 0, 0) =~= hex_text_of(b1 as nat));
    }
    lemma_hex_shift(b1 as nat, b2 as nat);
    lemma_hex_shift((b1 * 256 + b2) as nat, b3 as nat);
    assert((b1 * 256 + b2) * 256 + b3 == n);
    assert(body.len() > 0);
    assert(color_hex(c) =~= seq![48u8, 120u8] + hex_text_of(n as nat));
}

proof fn lemma_first_nonzero_bounds(vals: Seq<u8>, i: nat)
    requires
        i <= 4,
    ensures
        i <= first_nonzero(vals, i) <= 4,
    decreases 4 - i,
{
    if i < 4 && vals[i as int] == 0 {
        lemma_first_nonzero_bounds(vals, i + 1);
    }
}

fn hex_digit_of(n: u8) -> (r: u8)
    requires
        n < 16,
    ensures
        r == hex_digit(n),
{
    if n < 10 {
        48 + n
    } else {
        55 + n
    }
}

fn push_hex_byte(out: &mut Vec<u8>, v: u8, short: bool)
    ensures
        final(out)@ == old(out)@ + hex_byte(v, short),
{
    if short && v < 16 {
        out.push(hex_digit_of(v));
    } else {
        out.push(hex_digit_of(v / 16));
        out.push(hex_digit_of(v % 16));
    }
    assert(out@ =~= old(out)@ + hex_byte(v, short));
}

impl Color {
    /// See `color_hex`.
    pub fn hex_text(&self) -> (r: Vec<u8>)
        ensures
            r@ == color_hex(*self),
    {
        let vals: Vec<u8> = vec![self.0, self.1, self.2, self.3];
        let ghost s = first_nonzero(color_bytes(*self), 0);
        assert(vals@ =~= color_bytes(*self));
        let mut body: Vec<u8> = Vec::new();
        let mut started = false;
        let mut first = true;
        let mut i: usize = 0;
        while i < 4
            invariant
                vals@ == color_bytes(*self),
                s == first_nonzero(vals@, 0),
                i <= 4,
                s >= i ==> s == first_nonzero(vals@, i as nat),
                started <==> s < i,
                first <==> !started,
                body@ == hex_pieces(vals@, s, i as nat),
            decreases 4 - i,
        {
            let v = vals[i];
            proof {
                lemma_first_nonzero_bounds(vals@, (i + 1) as nat);
                if s >= i {
                    assert(first_nonzero(vals@, i as nat) == if vals@[i as int] != 0 {
                        i as nat
                    } else {
                        first_nonzero(vals@, (i + 1) as nat)
                    });
                }
                assert(hex_pieces(vals@, s, (i + 1) as nat) == hex_pieces(vals@, s, i as nat)
                    + hex_piece(vals@, s, i as nat));
            }
            if !started && v != 0 {
                started = true;
            }
            if started {
                if first && v <= 16 {
                    push_hex_byte(&mut body, v, true);
                } else if i != 3 || v != 255 {
                    push_hex_byte(&mut body, v, false);
                }
                first = false;
            }
            i = i + 1;
        }
        let mut res: Vec<u8> = vec![48u8, 120u8];
        if body.len() == 0 {
            res.push(48u8);
        } else {
            res.append(&mut body);
        }
        assert(res@ =~= color_hex(*self));
        res
    }
}

/// What is to be drawn at a place of a preview: an image of the watchface,
/// an image made for the preview, or a clock hand, whose drawing rests on
/// floating-point geometry and is left to the caller.
#[derive(Debug, PartialEq)]
pub enum ImageType {
    Id(ImgId),
    Image(Image),
    /// The hand `kind` of the analog dial at `value`, out of 12 for the hours
    /// and 60 for the minutes and seconds, drawn from its shape.
    Hand(HandKind, u32),
}

/// The hands of the analog dial.
#[derive(Debug, PartialEq, Eq, Clone, Copy)]
pub enum HandKind {
    Hours,
    Minutes,
    Seconds,
}

/// A number to show: its sign, its integer part and its first two decimal
/// places as a number from 0 to 100.
#[derive(Debug, PartialEq, Eq, Clone, Copy, Default)]
pub struct Decimal {
    pub negative: bool,
    pub int_part: u32,
    pub hundredths: u32,
}

/// The values that a preview shows.
#[derive(Debug, PartialEq, Eq, Clone, Copy, Default)]
pub struct PreviewParams {
    pub hours: Option<u32>,
    pub minutes: Option<u32>,
    pub seconds: Option<u32>,
    pub time12h: bool,
    pub am: bool,
    pub month: Option<u32>,
    pub day: Option<u32>,
    pub weekday: Option<u32>,

    pub steps: Option<u32>,
    pub steps_progress: Option<u32>,
    pub distance: Option<Decimal>,
    pub pulse: Option<u32>,
    pub heart_progress: Option<u32>,
    pub calories: Option<u32>,
    pub calories_progress: Option<u32>,
    pub pai: Option<u32>,

    pub weather: Option<u32>,
    pub temperature: Option<i32>,
    pub day_temperature: Option<i32>,
    pub night_temperature: Option<i32>,
    pub humidity: Option<i32>,
    pub wind: Option<i32>,
    pub uv: Option<i32>,

    pub battery: Option<u32>,
    pub do_not_disturb: bool,
    pub lock: bool,
    pub bluetooth: bool,
    pub alarm_hours: Option<u32>,
    pub alarm_minutes: Option<u32>,
    pub alarm_on: bool,

    pub animation: Option<u32>,
}

/// A preview that cannot be made: an image index out of the images of the
/// watchface, a position or an index past the range of its integer type,
/// a month 0, a progress bar without segments or a scale without images.
#[derive(Debug, PartialEq, Eq, Clone, Copy)]
pub enum PreviewError {
    Invalid,
}

/// An image to be drawn at `(x, y)`.
#[derive(Debug, PartialEq)]
pub struct ImageWithCoords {
    pub x: i32,
    pub y: i32,
    pub image_type: ImageType,
}

/// The parameters of a kind of watch.
pub trait WatchfaceParams {
}

} // verus!
