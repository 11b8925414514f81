use vstd::prelude::*;
use crate::common::{ImgId, Alignment, ImageType, ImageWithCoords, Decimal, PreviewError};
use crate::image::Image;
use crate::elements::{NumberInRect, StatusImage};
use crate::rounding::{
    law_single_exact_below_2_24, single_int, single_nat, half_away_from_zero, saturate_i32, saturate_u32, single_u128, single_i64,
};

verus! {

/// The image `id` of the watchface, to be drawn at `(x, y)`.
pub open spec fn id_at(x: i32, y: i32, id: u32) -> ImageWithCoords {
    ImageWithCoords { x, y, image_type: ImageType::Id(ImgId(id)) }
}

/// What a function that appends the items `expected` to `before` has done,
/// ending with `r` and leaving `after`: where `expected` is `None` the
/// preview cannot be made, and the function fails.
pub open spec fn outcome(
    r: Result<(), PreviewError>,
    after: Seq<ImageWithCoords>,
    expected: Option<Seq<ImageWithCoords>>,
) -> bool {
    match expected {
        Some(s) => r is Ok && after == s,
        None => r is Err,
    }
}

/// Where an element of size `element_size` starts when it is centred
/// between `lower_bound` and `upper_bound`: the half of the difference of
/// the sum of the bounds and the size, each held as a single-precision
/// number, rounded half away from zero and held to `i32`.
pub open spec fn centered_position(lower_bound: i32, upper_bound: i32, element_size: i32) -> i32 {
    saturate_i32(
        half_away_from_zero(
            single_int(single_int(lower_bound + upper_bound) - single_int(element_size as int)),
        ),
    )
}

/// Whether the position of an element can be computed: the bounds must not
/// overflow `i32` where they are added or subtracted.
pub open spec fn position_defined(
    lower_bound: i32,
    upper_bound: i32,
    element_size: i32,
    alignment: u32,
) -> bool {
    ||| alignment & 2 == 2
    ||| alignment & 4 == 4 && i32::MIN <= upper_bound - element_size <= i32::MAX
    ||| alignment & 4 != 4 && i32::MIN <= lower_bound + upper_bound <= i32::MAX
}

/// Where an element of size `element_size` starts between `lower_bound` and
/// `upper_bound`: at the lower bound where bit 0x02 of `alignment` is set,
/// else against the upper bound where bit 0x04 is set, else centred; never
/// before the lower bound.
pub open spec fn position(
    lower_bound: i32,
    upper_bound: i32,
    element_size: i32,
    alignment: u32,
) -> i32 {
    let p = if alignment & 2 == 2 {
        lower_bound
    } else if alignment & 4 == 4 {
        (upper_bound - element_size) as i32
    } else {
        centered_position(lower_bound, upper_bound, element_size)
    };
    if p < lower_bound {
        lower_bound
    } else {
        p
    }
}

/// An element is never placed before the lower bound.
pub proof fn law_position_not_below_lower_bound(
    lower_bound: i32,
    upper_bound: i32,
    element_size: i32,
    alignment: u32,
)
    ensures
        position(lower_bound, upper_bound, element_size, alignment) >= lower_bound,
{
}

/// Where the sum of the bounds, the size and their difference are below
/// 2^24 in magnitude, a centred element starts at the half of the
/// difference, rounded half away from zero: the single-precision
/// arithmetic is exact there.
pub proof fn law_centered_position_exact(lower_bound: i32, upper_bound: i32, element_size: i32)
    requires
        -0x100_0000 < lower_bound + upper_bound < 0x100_0000,
        -0x100_0000 < element_size < 0x100_0000,
        -0x100_0000 < lower_bound + upper_bound - element_size < 0x100_0000,
    ensures
        centered_position(lower_bound, upper_bound, element_size) == half_away_from_zero(
            lower_bound + upper_bound - element_size,
        ),
{
    law_single_exact_below_2_24(lower_bound + upper_bound);
    law_single_exact_below_2_24(element_size as int);
    law_single_exact_below_2_24(lower_bound + upper_bound - element_size);
}

/// See `position`.
pub fn compute_position_with_aligment(
    lower_bound: i32,
    upper_bound: i32,
    element_size: i32,
    alignment: u32,
) -> (r: i32)
    requires
        position_defined(lower_bound, upper_bound, element_size, alignment),
    ensures
        r == position(lower_bound, upper_bound, element_size, alignment),
{
    let result = if alignment & 0x02 == 0x02 {
        lower_bound
    } else if alignment & 0x04 == 0x04 {
        upper_bound - element_size
    } else {
        let sum = single_i64(lower_bound as i64 + upper_bound as i64);
        let size = single_i64(element_size as i64);
        let d = single_i64(sum - size);
        let h: i64 = if d >= 0 {
            ((d + 1) as u64 / 2) as i64
        } else {
            -(((1 - d) as u64 / 2) as i64)
        };
        if h > i32::MAX as i64 {
            i32::MAX
        } else if h < i32::MIN as i64 {
            i32::MIN
        } else {
            h as i32
        }
    };
    if result < lower_bound {
        lower_bound
    } else {
        result
    }
}

/// The image of a status: the image for "on" where `param` holds, else the
/// one for "off", where that image and the coordinates are given.
pub open spec fn status_image_items(status_image: Option<StatusImage>, param: bool) -> Seq<
    ImageWithCoords,
> {
    match status_image {
        Some(s) => {
            let index = if param {
                s.on_image_index
            } else {
                s.off_image_index
            };
            match (index, s.coordinates) {
                (Some(id), Some(c)) => seq![id_at(c.spec_x(), c.spec_y(), id.0)],
                _ => Seq::empty(),
            }
        },
        None => Seq::empty(),
    }
}

/// See `status_image_items`.
pub fn status_image_get_images(
    status_image: &Option<StatusImage>,
    param: bool,
    _images: &Vec<Image>,
) -> (r: Vec<ImageWithCoords>)
    ensures
        r@ == status_image_items(*status_image, param),
{
    let mut res = Vec::new();
    if let Some(status_image) = status_image {
        let index = if param {
            &status_image.on_image_index
        } else {
            &status_image.off_image_index
        };
        if let Some(image_index) = index {
            if let Some(coordinates) = &status_image.coordinates {
                res.push(
                    ImageWithCoords {
                        x: coordinates.get_x(),
                        y: coordinates.get_y(),
                        image_type: ImageType::Id(ImgId(image_index.0)),
                    },
                );
            }
        }
    }
    res
}

/// The number `v` as it is shown: held as a single-precision number, whose
/// integer part is held to `u32`.
pub open spec fn decimal_of_u32(v: u32) -> Decimal {
    Decimal {
        negative: false,
        int_part: saturate_u32(single_nat(v as nat) as int),
        hundredths: 0,
    }
}

/// The number `v` as it is shown: held as a single-precision number.
pub open spec fn decimal_of_i32(v: i32) -> Decimal {
    let magnitude: nat = if v < 0 {
        (-v) as nat
    } else {
        v as nat
    };
    Decimal { negative: v < 0, int_part: saturate_u32(single_nat(magnitude) as int), hundredths: 0 }
}

impl Decimal {
    /// See `decimal_of_u32`.
    pub fn from_u32(v: u32) -> (r: Decimal)
        ensures
            r == decimal_of_u32(v),
    {
        let m = single_u128(v as u128);
        let int_part = if m > u32::MAX as u128 {
            u32::MAX
        } else {
            m as u32
        };
        Decimal { negative: false, int_part, hundredths: 0 }
    }

    /// See `decimal_of_i32`.
    pub fn from_i32(v: i32) -> (r: Decimal)
        ensures
            r == decimal_of_i32(v),
    {
        let magnitude: u128 = if v < 0 {
            (-(v as i64)) as u128
        } else {
            v as u128
        };
        let m = single_u128(magnitude);
        let int_part = if m > u32::MAX as u128 {
            u32::MAX
        } else {
            m as u32
        };
        Decimal { negative: v < 0, int_part, hundredths: 0 }
    }
}

/// The decimal digits of `n`, least significant first; none for 0.
pub open spec fn digits(n: nat) -> Seq<u32>
    decreases n,
{
    if n == 0 {
        Seq::empty()
    } else {
        seq![(n % 10) as u32] + digits(n / 10)
    }
}

/// `ds` followed by zeros up to the length `w`.
pub open spec fn padded(ds: Seq<u32>, w: nat) -> Seq<u32> {
    if ds.len() < w {
        ds + Seq::new((w - ds.len()) as nat, |i: int| 0u32)
    } else {
        ds
    }
}

/// The digits shown for the integer part `n`, least significant first: at
/// least `w` of them, and at least one.
pub open spec fn int_digits(n: nat, w: nat) -> Seq<u32> {
    let p = padded(digits(n), w);
    if p.len() == 0 {
        seq![0u32]
    } else {
        p
    }
}

/// The digits shown for the decimal places `h`, least significant first: at
/// least two.
pub open spec fn fraction_digits(h: nat) -> Seq<u32> {
    padded(digits(h), 2)
}

/// The images of the digits `ds`, most significant first, where the image
/// of the digit 0 is `base` and those of the others follow it.
pub open spec fn digit_ids(base: u32, ds: Seq<u32>) -> Seq<u32> {
    Seq::new(ds.len(), |i: int| (base + ds[ds.len() - 1 - i]) as u32)
}

/// Whether the images of the digits `ds` have indices that fit `u32`.
pub open spec fn digits_fit(base: u32, ds: Seq<u32>) -> bool {
    forall|i: int| 0 <= i < ds.len() ==> base + ds[i] <= u32::MAX
}

/// The index of `o`, where there is one.
pub open spec fn optional_id(o: Option<ImgId>) -> Seq<u32> {
    match o {
        Some(i) => seq![i.0],
        None => Seq::empty(),
    }
}

/// The images that show `value` with the digits of `number`: the minus sign
/// where the value is negative and a sign is given; then, where the digits
/// are given, the integer part with at least `min_width` digits, and where a
/// decimal point is given, the point and two decimal places. `None` where
/// the index of a digit overflows `u32`.
pub open spec fn number_ids(
    number: NumberInRect,
    value: Decimal,
    decimal_point: Option<ImgId>,
    minus: Option<ImgId>,
    min_width: Option<usize>,
) -> Option<Seq<u32>> {
    let sign = if value.negative {
        optional_id(minus)
    } else {
        Seq::empty()
    };
    match number.image_index {
        None => Some(sign),
        Some(base) => {
            let w: nat = match min_width {
                Some(w) => w as nat,
                None => 0,
            };
            let ints = int_digits(value.int_part as nat, w);
            let fraction = fraction_digits(value.hundredths as nat);
            if !digits_fit(base.0, ints) {
                None
            } else {
                match decimal_point {
                    None => Some(sign + digit_ids(base.0, ints)),
                    Some(p) => if digits_fit(base.0, fraction) {
                        Some(sign + digit_ids(base.0, ints) + seq![p.0] + digit_ids(base.0, fraction))
                    } else {
                        None
                    },
                }
            }
        },
    }
}

/// The digits of `n`, least significant first, padded to `w`.
fn padded_digits(n: u32, w: usize) -> (r: Vec<u32>)
    ensures
        r@ == padded(digits(n as nat), w as nat),
{
    let mut ds: Vec<u32> = Vec::new();
    let mut m: u32 = n;
    while m != 0
        invariant
            digits(n as nat) == ds@ + digits(m as nat),
        decreases m,
    {
        assert(ds@ + digits(m as nat) =~= ds@.push(m % 10) + digits((m / 10) as nat));
        ds.push(m % 10);
        m = m / 10;
    }
    assert(ds@ =~= digits(n as nat));
    let d0 = ds.len();
    while ds.len() < w
        invariant
            d0 <= ds.len(),
            ds.len() <= w || ds.len() == d0,
            d0 == digits(n as nat).len(),
            ds@ == digits(n as nat) + Seq::new((ds.len() - d0) as nat, |i: int| 0u32),
        decreases w - ds.len(),
    {
        ds.push(0);
        assert(ds@ =~= digits(n as nat) + Seq::new((ds.len() - d0) as nat, |i: int| 0u32));
    }
    assert(ds@ =~= padded(digits(n as nat), w as nat));
    ds
}

/// The number that the digits `ds`, least significant first, stand for.
pub open spec fn digits_value(ds: Seq<u32>) -> nat
    decreases ds.len(),
{
    if ds.len() == 0 {
        0
    } else {
        ds[0] as nat + 10 * digits_value(ds.drop_first())
    }
}

proof fn lemma_digits(n: nat)
    ensures
        digits_value(digits(n)) == n,
        forall|i: int| 0 <= i < digits(n).len() ==> digits(n)[i] < 10,
    decreases n,
{
    if n > 0 {
        lemma_digits(n / 10);
        assert(digits(n).drop_first() =~= digits(n / 10));
    }
}

proof fn lemma_trailing_zeros(ds: Seq<u32>, k: nat)
    ensures
        digits_value(ds + Seq::new(k, |i: int| 0u32)) == digits_value(ds),
    decreases ds.len() + k,
{
    if ds.len() == 0 {
        if k > 0 {
            assert((ds + Seq::new(k, |i: int| 0u32)).drop_first() =~= Seq::<u32>::empty() + Seq::new(
                (k - 1) as nat,
                |i: int| 0u32,
            ));
            lemma_trailing_zeros(ds, (k - 1) as nat);
        }
    } else {
        assert((ds + Seq::new(k, |i: int| 0u32)).drop_first() =~= ds.drop_first() + Seq::new(
            k,
            |i: int| 0u32,
        ));
        lemma_trailing_zeros(ds.drop_first(), k);
    }
}

/// The digits shown for an integer part are decimal digits that stand for
/// it: at least `w` of them and at least one, the extra ones leading zeros.
pub proof fn law_int_digits_spell_value(n: nat, w: nat)
    ensures
        digits_value(int_digits(n, w)) == n,
        forall|i: int| 0 <= i < int_digits(n, w).len() ==> int_digits(n, w)[i] < 10,
        int_digits(n, w).len() >= w,
        int_digits(n, w).len() >= 1,
{
    lemma_digits(n);
    let d = digits(n);
    if d.len() < w {
        lemma_trailing_zeros(d, (w - d.len()) as nat);
    }
    let p = padded(d, w);
    if p.len() == 0 {
        assert(seq![0u32].drop_first() =~= Seq::<u32>::empty());
    }
}

/// The two decimal places shown are decimal digits that stand for the
/// hundredths given, where they are below 100.
pub proof fn law_fraction_digits_spell_value(h: nat)
    ensures
        digits_value(fraction_digits(h)) == h,
        fraction_digits(h).len() >= 2,
        h < 100 ==> fraction_digits(h).len() == 2,
        forall|i: int| 0 <= i < fraction_digits(h).len() ==> fraction_digits(h)[i] < 10,
{
    lemma_digits(h);
    let d = digits(h);
    if d.len() < 2 {
        lemma_trailing_zeros(d, (2 - d.len()) as nat);
    }
    if h < 100 {
        if h >= 10 {
            assert(digits(h / 10) =~= seq![(h / 10) as u32]) by {
                assert(digits((h / 10) / 10) =~= Seq::<u32>::empty());
            }
        }
    }
}

/// The images that show a number: the minus sign where the value is negative
/// and a sign is given, then the images of the digits of the integer part,
/// most significant first, padded with zeros in front to the minimal width
/// and to at least one digit; where a decimal point is given, the point and
/// the images of the two digits of the hundredths. Without digit images,
/// only the sign. Where the image of the digit 9 has an index that fits
/// `u32`, none overflows.
pub proof fn law_number_ids_shape(
    number: NumberInRect,
    value: Decimal,
    decimal_point: Option<ImgId>,
    minus: Option<ImgId>,
    min_width: Option<usize>,
)
    requires
        number.image_index matches Some(base) ==> base.0 + 9 <= u32::MAX,
        decimal_point is Some ==> value.hundredths < 100,
    ensures
        ({
            let sign = if value.negative {
                optional_id(minus)
            } else {
                Seq::empty()
            };
            let w: nat = match min_width {
                Some(w) => w as nat,
                None => 0,
            };
            let ints = int_digits(value.int_part as nat, w);
            let fraction = fraction_digits(value.hundredths as nat);
            &&& number.image_index is None ==> number_ids(number, value, decimal_point, minus, min_width)
                == Some(sign)
            &&& number.image_index matches Some(base) ==> {
                &&& number_ids(number, value, decimal_point, minus, min_width) == Some(
                    sign + digit_ids(base.0, ints) + match decimal_point {
                        Some(p) => seq![p.0] + digit_ids(base.0, fraction),
                        None => Seq::empty(),
                    },
                )
                &&& forall|i: int|
                    0 <= i < ints.len() ==> #[trigger] digit_ids(base.0, ints)[i] == base.0 + ints[ints.len()
                        - 1 - i]
                &&& forall|i: int| 0 <= i < ints.len() ==> #[trigger] ints[i] < 10
                &&& digits_value(ints) == value.int_part
                &&& ints.len() >= w && ints.len() >= 1
                &&& decimal_point is Some ==> fraction.len() == 2 && digits_value(fraction)
                    == value.hundredths
            }
        }),
{
    let w: nat = match min_width {
        Some(w) => w as nat,
        None => 0,
    };
    law_int_digits_spell_value(value.int_part as nat, w);
    law_fraction_digits_spell_value(value.hundredths as nat);
    let sign = if value.negative {
        optional_id(minus)
    } else {
        Seq::empty()
    };
    if let Some(base) = number.image_index {
        let ints = int_digits(value.int_part as nat, w);
        let fraction = fraction_digits(value.hundredths as nat);
        assert(digits_fit(base.0, ints));
        assert(digits_fit(base.0, fraction));
        match decimal_point {
            Some(p) => {
                assert(sign + digit_ids(base.0, ints) + seq![p.0] + digit_ids(base.0, fraction) =~= sign
                    + digit_ids(base.0, ints) + (seq![p.0] + digit_ids(base.0, fraction)));
            },
            None => {
                assert(sign + digit_ids(base.0, ints) =~= sign + digit_ids(base.0, ints) + Seq::<u32>::empty());
            },
        }
    }
}

/// Appends the images of the digits `ds`, most significant first; fails
/// where an index overflows `u32`.
fn push_digit_ids(out: &mut Vec<u32>, base: u32, ds: &Vec<u32>) -> (r: Result<(), PreviewError>)
    ensures
        digits_fit(base, ds@) ==> r is Ok && final(out)@ == old(out)@ + digit_ids(base, ds@),
        !digits_fit(base, ds@) ==> r is Err,
{
    let ghost start = out@;
    let mut k = ds.len();
    while k > 0
        invariant
            k <= ds.len(),
            out@ == start + digit_ids(base, ds@).take(ds.len() - k),
            forall|j: int| k <= j < ds.len() ==> base + ds@[j] <= u32::MAX,
        decreases k,
    {
        k = k - 1;
        match base.checked_add(ds[k]) {
            Some(v) => {
                out.push(v);
                assert(digit_ids(base, ds@).take(ds.len() - k) =~= digit_ids(base, ds@).take(
                    ds.len() - k - 1,
                ).push(v));
            },
            None => {
                return Err(PreviewError::Invalid);
            },
        }
    }
    assert(digit_ids(base, ds@).take(ds.len() as int) =~= digit_ids(base, ds@));
    Ok(())
}

/// See `number_ids`.
pub fn number_get_image_ids(
    number: &NumberInRect,
    param: Decimal,
    decimal_point_image_index: &Option<ImgId>,
    minus_image_index: &Option<ImgId>,
    min_width: Option<usize>,
) -> (r: Result<Vec<u32>, PreviewError>)
    ensures
        match number_ids(*number, param, *decimal_point_image_index, *minus_image_index, min_width) {
            Some(ids) => r matches Ok(v) && v@ == ids,
            None => r is Err,
        },
{
    let mut image_ids: Vec<u32> = Vec::new();
    if param.negative {
        if let Some(minus_image_index) = minus_image_index {
            image_ids.push(minus_image_index.0);
        }
    }
    assert(image_ids@ =~= (if param.negative {
        optional_id(*minus_image_index)
    } else {
        Seq::empty()
    }));
    if let Some(image_index) = &number.image_index {
        let w: usize = match min_width {
            Some(w) => w,
            None => 0,
        };
        let mut int_digits = padded_digits(param.int_part, w);
        if int_digits.len() == 0 {
            int_digits.push(0);
            assert(int_digits@ =~= seq![0u32]);
        }
        push_digit_ids(&mut image_ids, image_index.0, &int_digits)?;
        if let Some(decimal_point_image_index) = decimal_point_image_index {
            image_ids.push(decimal_point_image_index.0);
            let fraction_digits = padded_digits(param.hundredths, 2);
            push_digit_ids(&mut image_ids, image_index.0, &fraction_digits)?;
        }
    }
    Ok(image_ids)
}

/// The width of the first `k` images of `ids`, each followed by `spacing`
/// but the last: `None` where an image is not in `images`, or where a sum
/// overflows `u16` or does not fit it once the spacing is added.
pub open spec fn prefix_width(images: Seq<Image>, ids: Seq<u32>, spacing: i32, k: nat) -> Option<
    u16,
>
    decreases k,
{
    if k == 0 {
        Some(0)
    } else if k == 1 {
        if (ids[0] as int) < images.len() {
            Some(images[ids[0] as int].width)
        } else {
            None
        }
    } else {
        match prefix_width(images, ids, spacing, (k - 1) as nat) {
            None => None,
            Some(acc) => if (ids[k - 1] as int) < images.len() {
                let s = acc + images[ids[k - 1] as int].width;
                let t = s + spacing;
                if s <= u16::MAX && 0 <= t <= u16::MAX {
                    Some(t as u16)
                } else {
                    None
                }
            } else {
                None
            },
        }
    }
}

/// Once the width of a prefix cannot be computed, neither can that of a
/// longer one.
proof fn lemma_prefix_width_stops(images: Seq<Image>, ids: Seq<u32>, spacing: i32, k: nat, j: nat)
    requires
        prefix_width(images, ids, spacing, k) is None,
        k <= j,
    ensures
        prefix_width(images, ids, spacing, j) is None,
    decreases j - k,
{
    if k < j {
        lemma_prefix_width_stops(images, ids, spacing, k, (j - 1) as nat);
    }
}

/// The number of the alignment of a number in its rectangle.
pub open spec fn alignment_bits(a: Alignment) -> u32 {
    match a {
        Alignment::Valid(v) => v.spec_value() as u32,
        Alignment::Unknown => 0,
    }
}

/// `acc` followed by the images `ids` from the `i`-th on, laid out in the
/// rectangle of `number`, the `i`-th starting at `x`: each is placed
/// vertically by the vertical bits of `align`, moved down by `spacing_y`
/// for each before it, and the next starts after it and `spacing_x`.
/// `None` where an image is not in `images` or a coordinate overflows `i32`.
pub open spec fn text_items(
    acc: Seq<ImageWithCoords>,
    number: NumberInRect,
    ids: Seq<u32>,
    images: Seq<Image>,
    align: u32,
    i: nat,
    x: i32,
) -> Option<Seq<ImageWithCoords>>
    decreases ids.len() - i,
{
    if i >= ids.len() {
        Some(acc)
    } else if (ids[i as int] as int) >= images.len() {
        None
    } else {
        let img = images[ids[i as int] as int];
        let h = img.height as i32;
        let off = (i as i32) * number.spacing_y;
        let step = img.width as i32 + number.spacing_x;
        if !position_defined(number.top_left_y, number.bottom_right_y, h, align >> 3u32) {
            None
        } else {
            let y = position(number.top_left_y, number.bottom_right_y, h, align >> 3u32) + off;
            if !(i32::MIN <= off <= i32::MAX && i32::MIN <= y <= i32::MAX && i32::MIN <= step
                <= i32::MAX && i32::MIN <= x + step <= i32::MAX) {
                None
            } else {
                text_items(
                    acc.push(id_at(x, y as i32, ids[i as int])),
                    number,
                    ids,
                    images,
                    align,
                    i + 1,
                    (x + step) as i32,
                )
            }
        }
    }
}

/// `acc` followed by the images `ids` laid out in the rectangle of `number`:
/// the text, as wide as its images and the spacing between them, is placed
/// horizontally by `position` and the alignment of `number`.
pub open spec fn text_images(
    acc: Seq<ImageWithCoords>,
    number: NumberInRect,
    ids: Seq<u32>,
    images: Seq<Image>,
) -> Option<Seq<ImageWithCoords>> {
    let align = alignment_bits(number.alignment);
    match prefix_width(images, ids, number.spacing_x, ids.len()) {
        None => None,
        Some(w) => if position_defined(number.top_left_x, number.bottom_right_x, w as i32, align) {
            text_items(
                acc,
                number,
                ids,
                images,
                align,
                0,
                position(number.top_left_x, number.bottom_right_x, w as i32, align),
            )
        } else {
            None
        },
    }
}

/// How far the images `ids` from the `i`-th to before the `k`-th take the
/// next one: their widths, each with the spacing after it.
pub open spec fn advance(images: Seq<Image>, ids: Seq<u32>, spacing: i32, i: int, k: int) -> int
    decreases k - i,
{
    if k <= i {
        0
    } else {
        images[ids[i] as int].width + spacing + advance(images, ids, spacing, i + 1, k)
    }
}

/// The sum of the widths of the first `k` images of `ids`.
pub open spec fn widths(images: Seq<Image>, ids: Seq<u32>, k: int) -> int
    decreases k,
{
    if k <= 0 {
        0
    } else {
        widths(images, ids, k - 1) + images[ids[k - 1] as int].width
    }
}

proof fn lemma_advance_last(images: Seq<Image>, ids: Seq<u32>, spacing: i32, i: int, k: int)
    requires
        i < k,
    ensures
        advance(images, ids, spacing, i, k) == advance(images, ids, spacing, i, k - 1)
            + images[ids[k - 1] as int].width + spacing,
    decreases k - i,
{
    if i + 1 < k {
        lemma_advance_last(images, ids, spacing, i + 1, k);
        assert(advance(images, ids, spacing, i, k - 1) == images[ids[i] as int].width + spacing
            + advance(images, ids, spacing, i + 1, k - 1));
    } else {
        assert(advance(images, ids, spacing, i + 1, k) == 0);
        assert(advance(images, ids, spacing, i, k - 1) == 0);
    }
    assert(advance(images, ids, spacing, i, k) == images[ids[i] as int].width + spacing + advance(
        images,
        ids,
        spacing,
        i + 1,
        k,
    ));
}

proof fn lemma_advance_widths(images: Seq<Image>, ids: Seq<u32>, spacing: i32, k: int)
    requires
        0 <= k,
    ensures
        advance(images, ids, spacing, 0, k) == widths(images, ids, k) + k * spacing,
    decreases k,
{
    if k > 0 {
        lemma_advance_widths(images, ids, spacing, k - 1);
        lemma_advance_last(images, ids, spacing, 0, k);
        assert(widths(images, ids, k) == widths(images, ids, k - 1) + images[ids[k - 1] as int].width);
        assert((k - 1) * spacing + spacing == k * spacing) by (nonlinear_arith);
    } else {
        assert(k * spacing == 0) by (nonlinear_arith)
            requires
                k == 0,
        ;
    }
}

proof fn lemma_prefix_width_sum(images: Seq<Image>, ids: Seq<u32>, spacing: i32, k: nat)
    requires
        k >= 1,
        prefix_width(images, ids, spacing, k) is Some,
    ensures
        prefix_width(images, ids, spacing, k).unwrap() == widths(images, ids, k as int) + (k - 1)
            * spacing,
    decreases k,
{
    if k == 1 {
        assert(widths(images, ids, 0) == 0);
    } else {
        lemma_prefix_width_sum(images, ids, spacing, (k - 1) as nat);
        assert((k - 2) * spacing + spacing == (k - 1) * spacing) by (nonlinear_arith);
    }
}

proof fn lemma_text_items_layout(
    acc: Seq<ImageWithCoords>,
    number: NumberInRect,
    ids: Seq<u32>,
    images: Seq<Image>,
    align: u32,
    i: nat,
    x: i32,
)
    requires
        i <= ids.len(),
        text_items(acc, number, ids, images, align, i, x) is Some,
    ensures
        ({
            let s = text_items(acc, number, ids, images, align, i, x).unwrap();
            &&& s.len() == acc.len() + ids.len() - i
            &&& s.take(acc.len() as int) == acc
            &&& i < ids.len() ==> s[acc.len() as int].x == x
            &&& forall|j: int|
                acc.len() <= j < s.len() ==> #[trigger] s[j].image_type == ImageType::Id(
                    ImgId(ids[i + j - acc.len()]),
                )
            &&& forall|j: int|
                acc.len() <= j < s.len() - 1 ==> #[trigger] s[j + 1].x == s[j].x + images[ids[i + j
                    - acc.len()] as int].width + number.spacing_x
            &&& forall|j: int|
                acc.len() <= j < s.len() ==> #[trigger] s[j].x == x + advance(
                    images,
                    ids,
                    number.spacing_x,
                    i as int,
                    i + j - acc.len(),
                )
            &&& forall|j: int|
                acc.len() <= j < s.len() ==> #[trigger] s[j].y == position(
                    number.top_left_y,
                    number.bottom_right_y,
                    images[ids[i + j - acc.len()] as int].height as i32,
                    align >> 3u32,
                ) + ((i + j - acc.len()) as i32) * number.spacing_y
        }),
    decreases ids.len() - i,
{
    if i < ids.len() {
        let img = images[ids[i as int] as int];
        let h = img.height as i32;
        let off = (i as i32) * number.spacing_y;
        let step = img.width as i32 + number.spacing_x;
        let y = position(number.top_left_y, number.bottom_right_y, h, align >> 3u32) + off;
        let acc2 = acc.push(id_at(x, y as i32, ids[i as int]));
        lemma_text_items_layout(acc2, number, ids, images, align, i + 1, (x + step) as i32);
        let s = text_items(acc, number, ids, images, align, i, x).unwrap();
        assert(s == text_items(acc2, number, ids, images, align, i + 1, (x + step) as i32).unwrap());
        assert(s.take(acc.len() as int) =~= acc) by {
            assert(s.take(acc2.len() as int) == acc2);
            assert forall|j: int| 0 <= j < acc.len() implies s[j] == acc[j] by {
                assert(s.take(acc2.len() as int)[j] == acc2[j]);
            }
        }
        assert(s[acc.len() as int] == acc2[acc.len() as int]) by {
            assert(s.take(acc2.len() as int)[acc.len() as int] == acc2[acc.len() as int]);
        }
        if i + 1 < ids.len() {
            assert(s[acc.len() + 1int].x == x + step);
        }
        assert forall|j: int| acc.len() <= j < s.len() implies #[trigger] s[j].x == x + advance(
            images,
            ids,
            number.spacing_x,
            i as int,
            i + j - acc.len(),
        ) by {
            if j > acc.len() {
                assert(s[j].x == (x + step) + advance(images, ids, number.spacing_x, i + 1int, (i + 1) + j
                    - acc2.len()));
            }
        }
        assert forall|j: int| acc.len() <= j < s.len() implies #[trigger] s[j].y == position(
            number.top_left_y,
            number.bottom_right_y,
            images[ids[i + j - acc.len()] as int].height as i32,
            align >> 3u32,
        ) + ((i + j - acc.len()) as i32) * number.spacing_y by {
            if j > acc.len() {
                assert(s[j] == s[acc2.len() + (j - acc2.len())]);
            }
        }
    } else {
        assert(acc.take(acc.len() as int) =~= acc);
    }
}

/// The width of a text of `n` images: their widths and the spacing between
/// each two of them; 0 for no image.
pub open spec fn text_width(images: Seq<Image>, ids: Seq<u32>, spacing: i32, n: int) -> int {
    if n == 0 {
        0
    } else {
        widths(images, ids, n) + (n - 1) * spacing
    }
}

/// The images of a text come in the order of their indices. The first
/// starts where `position` places a text as wide as `text_width` under the
/// alignment of `number`, and each next one after the widths and spacings
/// before it; each is placed vertically by `position` under the vertical
/// bits of the alignment, its own height, and is moved down by the vertical
/// spacing for each image before it.
pub proof fn law_text_layout(number: NumberInRect, ids: Seq<u32>, images: Seq<Image>)
    requires
        text_images(Seq::empty(), number, ids, images) is Some,
    ensures
        ({
            let s = text_images(Seq::empty(), number, ids, images).unwrap();
            let align = alignment_bits(number.alignment);
            let x0 = position(
                number.top_left_x,
                number.bottom_right_x,
                text_width(images, ids, number.spacing_x, ids.len() as int) as i32,
                align,
            );
            &&& s.len() == ids.len()
            &&& forall|j: int| 0 <= j < s.len() ==> #[trigger] s[j].image_type == ImageType::Id(ImgId(ids[j]))
            &&& forall|j: int|
                0 <= j < s.len() - 1 ==> #[trigger] s[j + 1].x == s[j].x + images[ids[j] as int].width
                    + number.spacing_x
            &&& forall|j: int|
                0 <= j < s.len() ==> #[trigger] s[j].x == x0 + widths(images, ids, j) + j
                    * number.spacing_x
            &&& forall|j: int|
                0 <= j < s.len() ==> #[trigger] s[j].y == position(
                    number.top_left_y,
                    number.bottom_right_y,
                    images[ids[j] as int].height as i32,
                    align >> 3u32,
                ) + (j as i32) * number.spacing_y
        }),
{
    let align = alignment_bits(number.alignment);
    let n = ids.len();
    let w = prefix_width(images, ids, number.spacing_x, n).unwrap();
    if n >= 1 {
        lemma_prefix_width_sum(images, ids, number.spacing_x, n);
    }
    assert(w as int == text_width(images, ids, number.spacing_x, n as int));
    let x0 = position(number.top_left_x, number.bottom_right_x, w as i32, align);
    lemma_text_items_layout(Seq::empty(), number, ids, images, align, 0, x0);
    let s = text_images(Seq::empty(), number, ids, images).unwrap();
    assert forall|j: int| 0 <= j < s.len() implies #[trigger] s[j].x == x0 + widths(images, ids, j) + j
        * number.spacing_x by {
        lemma_advance_widths(images, ids, number.spacing_x, j);
        assert(s[j].x == x0 + advance(images, ids, number.spacing_x, 0, j));
    }
}

/// Appends the images `ids` laid out in the rectangle of `number`; see
/// `text_images`.
pub fn text_images_into(
    out: &mut Vec<ImageWithCoords>,
    number: &NumberInRect,
    image_ids: &Vec<u32>,
    images: &Vec<Image>,
) -> (r: Result<(), PreviewError>)
    ensures
        outcome(r, final(out)@, text_images(old(out)@, *number, image_ids@, images@)),
{
    let ghost start = out@;
    let align: u32 = match &number.alignment {
        Alignment::Valid(valid) => valid.value() as u32,
        Alignment::Unknown => 0,
    };
    let mut text_width: u16 = 0;
    let mut k: usize = 0;
    while k < image_ids.len()
        invariant
            k <= image_ids.len(),
            prefix_width(images@, image_ids@, number.spacing_x, k as nat) == Some(text_width),
        decreases image_ids.len() - k,
    {
        let id = image_ids[k];
        if id as usize >= images.len() {
            proof {
                lemma_prefix_width_stops(
                    images@,
                    image_ids@,
                    number.spacing_x,
                    (k + 1) as nat,
                    image_ids.len() as nat,
                );
            }
            return Err(PreviewError::Invalid);
        }
        let w = images[id as usize].width;
        if k == 0 {
            text_width = w;
        } else {
            let s: u32 = text_width as u32 + w as u32;
            let t: i64 = s as i64 + number.spacing_x as i64;
            if s > 0xffff || t < 0 || t > 0xffff {
                proof {
                    lemma_prefix_width_stops(
                        images@,
                        image_ids@,
                        number.spacing_x,
                        (k + 1) as nat,
                        image_ids.len() as nat,
                    );
                }
                return Err(PreviewError::Invalid);
            }
            text_width = t as u16;
        }
        k = k + 1;
    }
    let lower = number.top_left_x;
    let upper = number.bottom_right_x;
    let defined = if align & 0x02 == 0x02 {
        true
    } else if align & 0x04 == 0x04 {
        upper as i64 - text_width as i64 >= i32::MIN as i64 && upper as i64 - text_width as i64
            <= i32::MAX as i64
    } else {
        lower as i64 + upper as i64 >= i32::MIN as i64 && lower as i64 + upper as i64
            <= i32::MAX as i64
    };
    if !defined {
        return Err(PreviewError::Invalid);
    }
    let mut x = compute_position_with_aligment(lower, upper, text_width as i32, align);
    let mut i: usize = 0;
    while i < image_ids.len()
        invariant
            i <= image_ids.len(),
            start == old(out)@,
            text_images(start, *number, image_ids@, images@) == text_items(
                out@,
                *number,
                image_ids@,
                images@,
                align,
                i as nat,
                x,
            ),
        decreases image_ids.len() - i,
    {
        let id = image_ids[i];
        if id as usize >= images.len() {
            return Err(PreviewError::Invalid);
        }
        let height = images[id as usize].height as i32;
        let width = images[id as usize].width as i32;
        let valign = align >> 3;
        let lower_y = number.top_left_y;
        let upper_y = number.bottom_right_y;
        let defined_y = if valign & 0x02 == 0x02 {
            true
        } else if valign & 0x04 == 0x04 {
            upper_y as i64 - height as i64 >= i32::MIN as i64 && upper_y as i64 - height as i64
                <= i32::MAX as i64
        } else {
            lower_y as i64 + upper_y as i64 >= i32::MIN as i64 && lower_y as i64 + upper_y as i64
                <= i32::MAX as i64
        };
        if !defined_y {
            return Err(PreviewError::Invalid);
        }
        let base_y = compute_position_with_aligment(lower_y, upper_y, height, valign);
        let index: i32 = #[verifier::truncate] (i as i32);
        assert(i32::MIN * i32::MAX <= index * number.spacing_y <= i32::MIN * i32::MIN)
            by (nonlinear_arith);
        let off: i64 = index as i64 * number.spacing_y as i64;
        let y: i64 = base_y as i64 + off;
        let step: i64 = width as i64 + number.spacing_x as i64;
        let next: i64 = x as i64 + step;
        if off < i32::MIN as i64 || off > i32::MAX as i64 || y < i32::MIN as i64 || y
            > i32::MAX as i64 || step < i32::MIN as i64 || step > i32::MAX as i64 || next
            < i32::MIN as i64 || next > i32::MAX as i64 {
            return Err(PreviewError::Invalid);
        }
        out.push(ImageWithCoords { x, y: y as i32, image_type: ImageType::Id(ImgId(id)) });
        x = next as i32;
        i = i + 1;
    }
    Ok(())
}

/// See `text_images`.
pub fn text_get_images(number: &NumberInRect, image_ids: Vec<u32>, images: &Vec<Image>) -> (r: Vec<
    ImageWithCoords,
>)
    requires
        text_images(Seq::empty(), *number, image_ids@, images@) is Some,
    ensures
        Some(r@) == text_images(Seq::empty(), *number, image_ids@, images@),
{
    let mut res: Vec<ImageWithCoords> = Vec::new();
    let _done = text_images_into(&mut res, number, &image_ids, images);
    res
}

/// `acc` followed by the images that show `value` in the rectangle of
/// `number`, between the images `prefix` and `suffix` where they are given;
/// see `number_ids` and `text_images`.
pub open spec fn number_images(
    acc: Seq<ImageWithCoords>,
    number: Option<NumberInRect>,
    value: Decimal,
    images: Seq<Image>,
    prefix: Option<ImgId>,
    decimal_point: Option<ImgId>,
    minus: Option<ImgId>,
    suffix: Option<ImgId>,
    min_width: Option<usize>,
) -> Option<Seq<ImageWithCoords>> {
    match number {
        None => Some(acc),
        Some(n) => match number_ids(n, value, decimal_point, minus, min_width) {
            None => None,
            Some(ids) => text_images(acc, n, optional_id(prefix) + ids + optional_id(suffix), images),
        },
    }
}

/// A number is shown as the prefix image where one is given, then the
/// images of the number itself (sign, digits, point and decimals), then the
/// suffix image where one is given, in that order and nothing else.
pub proof fn law_number_prefix_then_suffix(
    number: NumberInRect,
    value: Decimal,
    images: Seq<Image>,
    prefix: Option<ImgId>,
    decimal_point: Option<ImgId>,
    minus: Option<ImgId>,
    suffix: Option<ImgId>,
    min_width: Option<usize>,
)
    requires
        number_images(Seq::empty(), Some(number), value, images, prefix, decimal_point, minus, suffix, min_width)
            is Some,
    ensures
        number_ids(number, value, decimal_point, minus, min_width) is Some,
        ({
            let r = number_images(
                Seq::empty(),
                Some(number),
                value,
                images,
                prefix,
                decimal_point,
                minus,
                suffix,
                min_width,
            ).unwrap();
            let ids = number_ids(number, value, decimal_point, minus, min_width).unwrap();
            let np: int = if prefix is Some { 1 } else { 0 };
            let ns: int = if suffix is Some { 1 } else { 0 };
            &&& r.len() == np + ids.len() + ns
            &&& prefix matches Some(p) ==> r[0].image_type == ImageType::Id(p)
            &&& forall|j: int| 0 <= j < ids.len() ==> #[trigger] r[np + j].image_type == ImageType::Id(ImgId(ids[j]))
            &&& suffix matches Some(sf) ==> r[r.len() - 1].image_type == ImageType::Id(sf)
        }),
{
    let ids = number_ids(number, value, decimal_point, minus, min_width).unwrap();
    let all = optional_id(prefix) + ids + optional_id(suffix);
    law_text_layout(number, all, images);
    let np: int = if prefix is Some { 1 } else { 0 };
    assert forall|j: int| 0 <= j < ids.len() implies all[np + j] == ids[j] by {
        assert(optional_id(prefix).len() == np);
    }
    if let Some(sf) = suffix {
        assert(all[all.len() - 1] == sf.0);
    }
    if let Some(p) = prefix {
        assert(all[0] == p.0);
    }
}

/// Appends the images that show `param`; see `number_images`.
pub fn number_images_into(
    out: &mut Vec<ImageWithCoords>,
    number: &Option<NumberInRect>,
    param: Decimal,
    images: &Vec<Image>,
    prefix_image_index: &Option<ImgId>,
    decimal_point_image_index: &Option<ImgId>,
    minus_image_index: &Option<ImgId>,
    suffix_image_index: &Option<ImgId>,
    min_width: Option<usize>,
) -> (r: Result<(), PreviewError>)
    ensures
        outcome(
            r,
            final(out)@,
            number_images(
                old(out)@,
                *number,
                param,
                images@,
                *prefix_image_index,
                *decimal_point_image_index,
                *minus_image_index,
                *suffix_image_index,
                min_width,
            ),
        ),
{
    if let Some(number) = number {
        let mut image_ids: Vec<u32> = Vec::new();
        if let Some(prefix_image_index) = prefix_image_index {
            image_ids.push(prefix_image_index.0);
        }
        let mut ids = number_get_image_ids(
            number,
            param,
            decimal_point_image_index,
            minus_image_index,
            min_width,
        )?;
        let ghost idv = ids@;
        image_ids.append(&mut ids);
        if let Some(suffix_image_index) = suffix_image_index {
            image_ids.push(suffix_image_index.0);
        }
        assert(image_ids@ =~= optional_id(*prefix_image_index) + idv + optional_id(
            *suffix_image_index,
        ));
        text_images_into(out, number, &image_ids, images)
    } else {
        Ok(())
    }
}

/// See `number_images`.
pub fn number_get_images(
    number: &Option<NumberInRect>,
    param: Decimal,
    images: &Vec<Image>,
    prefix_image_index: &Option<ImgId>,
    decimal_point_image_index: &Option<ImgId>,
    minus_image_index: &Option<ImgId>,
    suffix_image_index: &Option<ImgId>,
    min_width: Option<usize>,
) -> (r: Result<Vec<ImageWithCoords>, PreviewError>)
    ensures
        match number_images(
            Seq::empty(),
            *number,
            param,
            images@,
            *prefix_image_index,
            *decimal_point_image_index,
            *minus_image_index,
            *suffix_image_index,
            min_width,
        ) {
            Some(s) => r matches Ok(v) && v@ == s,
            None => r is Err,
        },
{
    let mut res: Vec<ImageWithCoords> = Vec::new();
    number_images_into(
        &mut res,
        number,
        param,
        images,
        prefix_image_index,
        decimal_point_image_index,
        minus_image_index,
        suffix_image_index,
        min_width,
    )?;
    Ok(res)
}

/// The images of the first `k` of `values`, each shown with the digits of
/// `number`, followed by `suffix` where `append_suffix_to_all` holds and by
/// `delimiter` but the last; see `number_ids`.
pub open spec fn delimited_ids(
    number: NumberInRect,
    values: Seq<Decimal>,
    minus: Option<ImgId>,
    delimiter: Option<ImgId>,
    suffix: Option<ImgId>,
    append_suffix_to_all: bool,
    min_width: Option<usize>,
    k: nat,
) -> Option<Seq<u32>>
    decreases k,
{
    if k == 0 {
        Some(Seq::empty())
    } else {
        match delimited_ids(
            number,
            values,
            minus,
            delimiter,
            suffix,
            append_suffix_to_all,
            min_width,
            (k - 1) as nat,
        ) {
            None => None,
            Some(prev) => match number_ids(number, values[k - 1], None, minus, min_width) {
                None => None,
                Some(ids) => Some(
                    prev + ids + (if append_suffix_to_all {
                        optional_id(suffix)
                    } else {
                        Seq::empty()
                    }) + (if k - 1 != values.len() - 1 {
                        optional_id(delimiter)
                    } else {
                        Seq::empty()
                    }),
                ),
            },
        }
    }
}

/// Once the images of some values cannot be made, neither can those of more.
proof fn lemma_delimited_stops(
    number: NumberInRect,
    values: Seq<Decimal>,
    minus: Option<ImgId>,
    delimiter: Option<ImgId>,
    suffix: Option<ImgId>,
    append_suffix_to_all: bool,
    min_width: Option<usize>,
    k: nat,
    j: nat,
)
    requires
        delimited_ids(number, values, minus, delimiter, suffix, append_suffix_to_all, min_width, k)
            is None,
        k <= j,
    ensures
        delimited_ids(number, values, minus, delimiter, suffix, append_suffix_to_all, min_width, j)
            is None,
    decreases j - k,
{
    if k < j {
        lemma_delimited_stops(
            number,
            values,
            minus,
            delimiter,
            suffix,
            append_suffix_to_all,
            min_width,
            k,
            (j - 1) as nat,
        );
    }
}

/// The sequences `parts` one after another with `sep` between each two
/// neighbours, and neither before the first nor after the last.
pub open spec fn joined(parts: Seq<Seq<u32>>, sep: Seq<u32>) -> Seq<u32>
    decreases parts.len(),
{
    if parts.len() == 0 {
        Seq::empty()
    } else if parts.len() == 1 {
        parts[0]
    } else {
        joined(parts.drop_last(), sep) + sep + parts.last()
    }
}

/// The images of each value, with the suffix where it goes after every
/// value; see `law_delimiters_between`.
pub open spec fn value_parts(
    number: NumberInRect,
    values: Seq<Decimal>,
    minus: Option<ImgId>,
    suffix: Option<ImgId>,
    append_suffix_to_all: bool,
    min_width: Option<usize>,
) -> Seq<Seq<u32>> {
    Seq::new(
        values.len(),
        |i: int|
            number_ids(number, values[i], None, minus, min_width).unwrap() + (if append_suffix_to_all {
                optional_id(suffix)
            } else {
                Seq::empty()
            }),
    )
}

/// The first `k` values, each but the last followed by the delimiter.
proof fn lemma_delimited_prefix(
    number: NumberInRect,
    values: Seq<Decimal>,
    minus: Option<ImgId>,
    delimiter: Option<ImgId>,
    suffix: Option<ImgId>,
    append_suffix_to_all: bool,
    min_width: Option<usize>,
    k: nat,
)
    requires
        1 <= k <= values.len(),
        forall|i: int| 0 <= i < values.len() ==> (#[trigger] number_ids(number, values[i], None, minus, min_width)) is Some,
    ensures
        ({
            let q = value_parts(number, values, minus, suffix, append_suffix_to_all, min_width);
            delimited_ids(number, values, minus, delimiter, suffix, append_suffix_to_all, min_width, k) == Some(
                joined(q.take(k as int), optional_id(delimiter)) + (if k < values.len() {
                    optional_id(delimiter)
                } else {
                    Seq::empty()
                }),
            )
        }),
    decreases k,
{
    let q = value_parts(number, values, minus, suffix, append_suffix_to_all, min_width);
    let sep = optional_id(delimiter);
    let sfx = if append_suffix_to_all { optional_id(suffix) } else { Seq::<u32>::empty() };
    let tail = if k < values.len() { sep } else { Seq::<u32>::empty() };
    assert(number_ids(number, values[k - 1], None, minus, min_width) is Some);
    let ids = number_ids(number, values[k - 1], None, minus, min_width).unwrap();
    assert(q[k - 1] == ids + sfx);
    if k == 1 {
        assert(q.take(1).len() == 1);
        assert(q.take(1)[0] == q[0]);
        assert(Seq::<u32>::empty() + ids + sfx + tail =~= q[0] + tail);
    } else {
        lemma_delimited_prefix(number, values, minus, delimiter, suffix, append_suffix_to_all, min_width, (k - 1) as nat);
        let prev = joined(q.take(k - 1), sep);
        assert(q.take(k as int).drop_last() =~= q.take(k - 1));
        assert(q.take(k as int).last() == q[k - 1]);
        assert(joined(q.take(k as int), sep) == prev + sep + q[k - 1]);
        assert((prev + sep) + ids + sfx + tail =~= prev + sep + (ids + sfx) + tail);
    }
}

/// Numbers shown in one line have the delimiter between each two
/// neighbours, and neither before the first nor after the last: the images
/// are those of the first value, the delimiter, those of the second, and so
/// on, each value's images followed by the suffix where it goes after every
/// value.
pub proof fn law_delimiters_between(
    number: NumberInRect,
    values: Seq<Decimal>,
    minus: Option<ImgId>,
    delimiter: Option<ImgId>,
    suffix: Option<ImgId>,
    append_suffix_to_all: bool,
    min_width: Option<usize>,
)
    requires
        forall|i: int| 0 <= i < values.len() ==> (#[trigger] number_ids(number, values[i], None, minus, min_width)) is Some,
    ensures
        delimited_ids(number, values, minus, delimiter, suffix, append_suffix_to_all, min_width, values.len())
            == Some(
            joined(
                value_parts(number, values, minus, suffix, append_suffix_to_all, min_width),
                optional_id(delimiter),
            ),
        ),
{
    let q = value_parts(number, values, minus, suffix, append_suffix_to_all, min_width);
    if values.len() == 0 {
        assert(q.len() == 0);
    } else {
        lemma_delimited_prefix(number, values, minus, delimiter, suffix, append_suffix_to_all, min_width, values.len());
        assert(q.take(values.len() as int) =~= q);
        assert(joined(q, optional_id(delimiter)) + Seq::<u32>::empty() =~= joined(q, optional_id(delimiter)));
    }
}

/// `acc` followed by the images that show `values` in one line in the
/// rectangle of `number`, with `suffix` at the end; see `delimited_ids`.
pub open spec fn delimited_images(
    acc: Seq<ImageWithCoords>,
    number: Option<NumberInRect>,
    values: Seq<Decimal>,
    images: Seq<Image>,
    minus: Option<ImgId>,
    delimiter: Option<ImgId>,
    suffix: Option<ImgId>,
    append_suffix_to_all: bool,
    min_width: Option<usize>,
) -> Option<Seq<ImageWithCoords>> {
    match number {
        None => Some(acc),
        Some(n) => match delimited_ids(
            n,
            values,
            minus,
            delimiter,
            suffix,
            append_suffix_to_all,
            min_width,
            values.len(),
        ) {
            None => None,
            Some(ids) => text_images(acc, n, ids + optional_id(suffix), images),
        },
    }
}

/// The images that show numbers in one line are, in order, those of the
/// values with the delimiter between each two neighbours, then the suffix
/// where one is given.
pub proof fn law_delimited_images_order(
    number: NumberInRect,
    values: Seq<Decimal>,
    images: Seq<Image>,
    minus: Option<ImgId>,
    delimiter: Option<ImgId>,
    suffix: Option<ImgId>,
    append_suffix_to_all: bool,
    min_width: Option<usize>,
)
    requires
        forall|i: int| 0 <= i < values.len() ==> (#[trigger] number_ids(number, values[i], None, minus, min_width)) is Some,
        delimited_images(
            Seq::empty(),
            Some(number),
            values,
            images,
            minus,
            delimiter,
            suffix,
            append_suffix_to_all,
            min_width,
        ) is Some,
    ensures
        ({
            let r = delimited_images(
                Seq::empty(),
                Some(number),
                values,
                images,
                minus,
                delimiter,
                suffix,
                append_suffix_to_all,
                min_width,
            ).unwrap();
            let ids = joined(
                value_parts(number, values, minus, suffix, append_suffix_to_all, min_width),
                optional_id(delimiter),
            ) + optional_id(suffix);
            &&& r.len() == ids.len()
            &&& forall|j: int| 0 <= j < r.len() ==> #[trigger] r[j].image_type == ImageType::Id(ImgId(ids[j]))
        }),
{
    law_delimiters_between(number, values, minus, delimiter, suffix, append_suffix_to_all, min_width);
    let ids = joined(
        value_parts(number, values, minus, suffix, append_suffix_to_all, min_width),
        optional_id(delimiter),
    ) + optional_id(suffix);
    law_text_layout(number, ids, images);
}

/// Appends the images that show `params` in one line; see
/// `delimited_images`.
pub fn numbers_with_delimiters_get_images(
    out: &mut Vec<ImageWithCoords>,
    number: &Option<NumberInRect>,
    params: &Vec<Decimal>,
    images: &Vec<Image>,
    minus_image_index: &Option<ImgId>,
    delimiter_image_index: &Option<ImgId>,
    suffix_image_index: &Option<ImgId>,
    append_suffix_to_all: bool,
    min_width: Option<usize>,
) -> (r: Result<(), PreviewError>)
    ensures
        outcome(
            r,
            final(out)@,
            delimited_images(
                old(out)@,
                *number,
                params@,
                images@,
                *minus_image_index,
                *delimiter_image_index,
                *suffix_image_index,
                append_suffix_to_all,
                min_width,
            ),
        ),
{
    if let Some(n) = number {
        let mut image_ids: Vec<u32> = Vec::new();
        let mut i: usize = 0;
        while i < params.len()
            invariant
                i <= params.len(),
                *number == Some(*n),
                delimited_ids(
                    *n,
                    params@,
                    *minus_image_index,
                    *delimiter_image_index,
                    *suffix_image_index,
                    append_suffix_to_all,
                    min_width,
                    i as nat,
                ) == Some(image_ids@),
            decreases params.len() - i,
        {
            let ghost before = image_ids@;
            let res = number_get_image_ids(n, params[i], &None, minus_image_index, min_width);
            match res {
                Err(e) => {
                    proof {
                        lemma_delimited_stops(
                            *n,
                            params@,
                            *minus_image_index,
                            *delimiter_image_index,
                            *suffix_image_index,
                            append_suffix_to_all,
                            min_width,
                            (i + 1) as nat,
                            params.len() as nat,
                        );
                    }
                    return Err(e);
                },
                Ok(mut ids) => {
                    let ghost idv = ids@;
                    image_ids.append(&mut ids);
                    if let Some(suffix_image_index) = suffix_image_index {
                        if append_suffix_to_all {
                            image_ids.push(suffix_image_index.0);
                        }
                    }
                    if let Some(delimiter_image_index) = delimiter_image_index {
                        if i != params.len() - 1 {
                            image_ids.push(delimiter_image_index.0);
                        }
                    }
                    assert(image_ids@ =~= before + idv + (if append_suffix_to_all {
                        optional_id(*suffix_image_index)
                    } else {
                        Seq::empty()
                    }) + (if i != params.len() - 1 {
                        optional_id(*delimiter_image_index)
                    } else {
                        Seq::empty()
                    }));
                },
            }
            i = i + 1;
        }
        let ghost all = image_ids@;
        if let Some(suffix_image_index) = suffix_image_index {
            image_ids.push(suffix_image_index.0);
        }
        assert(image_ids@ =~= all + optional_id(*suffix_image_index));
        text_images_into(out, n, &image_ids, images)
    } else {
        Ok(())
    }
}

} // verus!
